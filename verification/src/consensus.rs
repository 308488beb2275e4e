//! Gathering a quorum of peer responses for a request.

use vstd::prelude::*;
use vstd::string::*;

use crate::errors::{RaftError, multiple_cause, new_multiple_err};
use crate::messages::QuorumResponse;

verus! {

/// The vote that a reply carries: `Some(agrees)` for a response, `None` for an
/// error.
pub open spec fn reply_vote<R: QuorumResponse, E>(r: Result<R, E>) -> Option<bool> {
    match r {
        Ok(x) => Some(x.agrees()),
        Err(_) => None,
    }
}

/// The votes that the replies carry, in order.
pub open spec fn votes_of<R: QuorumResponse, E>(rs: Seq<Result<R, E>>) -> Seq<Option<bool>> {
    Seq::new(rs.len(), |i: int| reply_vote(rs[i]))
}

/// The number of agreeing replies.
pub open spec fn agreeing(vs: Seq<Option<bool>>) -> nat
    decreases vs.len(),
{
    if vs.len() == 0 {
        0
    } else {
        agreeing(vs.drop_last()) + if vs.last() == Some(true) {
            1nat
        } else {
            0nat
        }
    }
}

/// Whether the replies gather the quorum. The node's own vote counts, and the
/// count is checked at each answer (agreeing or not): with a quorum of at most
/// one, any answer gathers it; otherwise the own vote and the agreeing answers
/// must reach it.
pub open spec fn quorum_gathered(vs: Seq<Option<bool>>, quorum: nat) -> bool {
    if quorum <= 1 {
        exists|i: int| 0 <= i < vs.len() && #[trigger] vs[i] is Some
    } else {
        1 + agreeing(vs) >= quorum
    }
}

/// The errors among the replies, in order.
pub open spec fn errors_in<R, E>(rs: Seq<Result<R, E>>) -> Seq<E>
    decreases rs.len(),
{
    if rs.len() == 0 {
        Seq::empty()
    } else {
        let prev = errors_in(rs.drop_last());
        match rs.last() {
            Err(e) => prev.push(e),
            Ok(_) => prev,
        }
    }
}

/// Counting agreeing votes only grows along the replies.
pub proof fn lemma_agreeing_monotone(vs: Seq<Option<bool>>, i: int)
    requires
        0 <= i <= vs.len(),
    ensures
        agreeing(vs.take(i)) <= agreeing(vs),
    decreases vs.len() - i,
{
    if i < vs.len() {
        lemma_agreeing_monotone(vs, i + 1);
        assert(vs.take(i + 1).drop_last() =~= vs.take(i));
    } else {
        assert(vs.take(i) =~= vs);
    }
}

/// When some replies agree, the count is reached at the last agreeing one.
pub proof fn lemma_last_agreeing(vs: Seq<Option<bool>>)
    requires
        agreeing(vs) > 0,
    ensures
        exists|k: int|
            0 <= k < vs.len() && vs[k] == Some(true) && #[trigger] agreeing(vs.take(k + 1))
                == agreeing(vs),
    decreases vs.len(),
{
    let n = vs.len() as int;
    assert(vs.take(n) =~= vs);
    if vs.last() == Some(true) {
        assert(vs[n - 1] == Some(true));
        assert(agreeing(vs.take((n - 1) + 1)) == agreeing(vs));
    } else {
        let d = vs.drop_last();
        lemma_last_agreeing(d);
        let k = choose|k: int|
            0 <= k < d.len() && d[k] == Some(true) && #[trigger] agreeing(d.take(k + 1))
                == agreeing(d);
        assert(d.take(k + 1) =~= vs.take(k + 1));
        assert(vs[k] == Some(true));
    }
}

/// The outcome of a request for the given replies, as `Display` shows the error.
pub open spec fn consensus_outcome_matches<R: QuorumResponse>(
    r: Result<bool, RaftError>,
    replies: Seq<Result<R, RaftError>>,
    quorum: Option<u32>,
) -> bool {
    match quorum {
        None => r == Ok::<bool, RaftError>(true),
        Some(q) => if quorum_gathered(votes_of(replies), q as nat) {
            r == Ok::<bool, RaftError>(true)
        } else if agreeing(votes_of(replies)) == 0 && errors_in(replies).len() > 0 {
            &&& r is Err
            &&& r->Err_0.text_view() == "Cannot get quorum for request"@
            &&& r->Err_0.cause_view() == multiple_cause(errors_in(replies))
        } else {
            r == Ok::<bool, RaftError>(false)
        },
    }
}

/// Counts the votes of the peers' replies against a quorum: whether the
/// quorum is gathered and, when it is not, the votes (the node's own one
/// included) and the errors among the replies, in order.
fn count_votes<R: QuorumResponse, E>(responses: Vec<Result<R, E>>, quorum_size: u32) -> (r: (
    bool,
    u32,
    Vec<E>,
))
    ensures
        r.0 == quorum_gathered(votes_of(responses@), quorum_size as nat),
        !r.0 ==> r.1 == 1 + agreeing(votes_of(responses@)),
        !r.0 ==> r.2@ == errors_in(responses@),
{
    let ghost replies = responses@;
    let ghost vs = votes_of(replies);
    let mut votes: u32 = 1;
    let mut errors: Vec<E> = Vec::new();
    let total = responses.len();
    let mut rest = responses;
    let mut i: usize = 0;
    while rest.len() > 0
        invariant
            i + rest@.len() == replies.len(),
            replies.len() == total,
            replies == responses@,
            rest@ == replies.skip(i as int),
            vs == votes_of(replies),
            votes == 1 + agreeing(vs.take(i as int)),
            quorum_size >= 2 ==> votes < quorum_size,
            quorum_size <= 1 ==> votes == 1,
            errors@ == errors_in(replies.take(i as int)),
            forall|j: int|
                0 <= j < i && #[trigger] vs[j] is Some ==> 1 + agreeing(vs.take(j + 1))
                    < quorum_size,
        decreases rest.len(),
    {
        let response = rest.remove(0);
        proof {
            assert(response == replies[i as int]);
            assert(vs.take(i as int + 1).drop_last() =~= vs.take(i as int));
            assert(replies.take(i as int + 1).drop_last() =~= replies.take(i as int));
            assert(rest@ =~= replies.skip(i as int + 1));
        }
        match response {
            Ok(peer_resp) => {
                if peer_resp.get_result() {
                    votes = votes + 1;
                }
                if votes >= quorum_size {
                    proof {
                        if quorum_size > 1 {
                            lemma_agreeing_monotone(vs, i as int + 1);
                        } else {
                            assert(vs[i as int] is Some);
                        }
                    }
                    return (true, votes, errors);
                }
            },
            Err(err) => {
                errors.push(err);
            },
        }
        i = i + 1;
    }
    proof {
        assert(vs.take(i as int) =~= vs);
        assert(replies.take(i as int) =~= replies);
        if quorum_size <= 1 {
            if exists|k: int| 0 <= k < vs.len() && #[trigger] vs[k] is Some {
                let k = choose|k: int| 0 <= k < vs.len() && #[trigger] vs[k] is Some;
                assert(vs[k] is Some);
            }
        } else if agreeing(vs) > 0 {
            lemma_last_agreeing(vs);
            let k = choose|k: int|
                0 <= k < vs.len() && vs[k] == Some(true) && #[trigger] agreeing(vs.take(k + 1))
                    == agreeing(vs);
            assert(vs[k] is Some);
        }
    }
    (false, votes, errors)
}

/// Decides a request from the peers' replies. Without a quorum to gather the
/// request succeeds. Otherwise it succeeds when the quorum is gathered; when
/// it is not, it fails with the peers' errors if no peer agreed and some
/// failed, and is refused (`Ok(false)`) otherwise.
pub fn decide_consensus<R: QuorumResponse>(
    responses: Vec<Result<R, RaftError>>,
    quorum: Option<u32>,
) -> (r: Result<bool, RaftError>)
    ensures
        consensus_outcome_matches(r, responses@, quorum),
{
    if let Some(quorum_size) = quorum {
        let (gathered, votes, errors) = count_votes(responses, quorum_size);
        if gathered {
            return Ok(true);
        }
        if errors.len() > 0 && votes == 1 {
            let text = String::from_str("Cannot get quorum for request");
            return new_multiple_err(text, errors);
        }
        return Ok(false);
    }
    Ok(true)
}

/// The peer gave the reply to a copy of the request.
pub open spec fn answered<Req: Clone, Resp, F: Fn(u64, Req) -> Result<Resp, RaftError>>(
    requester: F,
    request: Req,
    peer: u64,
    reply: Result<Resp, RaftError>,
) -> bool {
    exists|q: Req| cloned::<Req>(request, q) && #[trigger] requester.ensures((peer, q), reply)
}

/// Sends a copy of the request to each peer, in order, and decides the
/// request from the replies (see `decide_consensus`). Without peers the
/// request succeeds at once.
pub fn request_peer_consensus<Req, Resp, Requester>(
    request: Req,
    node_id: u64,
    peers: Vec<u64>,
    quorum: Option<u32>,
    requester: Requester,
) -> (r: Result<bool, RaftError>) where
    Requester: Fn(u64, Req) -> Result<Resp, RaftError>,
    Req: Clone,
    Resp: QuorumResponse,

    requires
        forall|p: u64, q: Req| #[trigger] requester.requires((p, q)),
    ensures
        peers@.len() == 0 ==> r == Ok::<bool, RaftError>(true),
        peers@.len() > 0 ==> exists|replies: Seq<Result<Resp, RaftError>>|
            {
                &&& replies.len() == peers@.len()
                &&& forall|i: int|
                    0 <= i < peers@.len() ==> answered(requester, request, peers@[i], #[trigger] replies[i])
                &&& consensus_outcome_matches(r, replies, quorum)
            },
{
    if peers.len() == 0 {
        return Ok(true);
    }
    let mut responses: Vec<Result<Resp, RaftError>> = Vec::new();
    let mut i: usize = 0;
    while i < peers.len()
        invariant
            i <= peers.len(),
            responses@.len() == i,
            forall|p: u64, q: Req| #[trigger] requester.requires((p, q)),
            forall|j: int| 0 <= j < i ==> answered(requester, request, peers@[j], #[trigger] responses@[j]),
        decreases peers.len() - i,
    {
        let copy = request.clone();
        let reply = requester(peers[i], copy);
        assert(answered(requester, request, peers@[i as int], reply));
        responses.push(reply);
        i = i + 1;
    }
    let ghost replies = responses@;
    let r = decide_consensus(responses, quorum);
    assert(replies.len() == peers@.len());
    r
}

/// The error text of a failed notification: "No quorum" followed by each
/// peer error, each after a ";".
pub open spec fn no_quorum_message(errors: Seq<&'static str>) -> Seq<char>
    decreases errors.len(),
{
    if errors.len() == 0 {
        "No quorum"@
    } else {
        no_quorum_message(errors.drop_last()) + ";"@ + errors.last()@
    }
}

/// Decides a notification from the peers' replies: it succeeds without a
/// quorum to gather or when the quorum is gathered, and otherwise fails with
/// "No quorum" and the peers' errors.
pub fn decide_notification<R: QuorumResponse>(
    responses: Vec<Result<R, &'static str>>,
    quorum: Option<u32>,
) -> (r: Result<(), String>)
    ensures
        match quorum {
            None => r is Ok,
            Some(q) => if quorum_gathered(votes_of(responses@), q as nat) {
                r is Ok
            } else {
                r matches Err(e) && e@ == no_quorum_message(errors_in(responses@))
            },
        },
{
    if let Some(quorum_size) = quorum {
        let (gathered, _votes, errors) = count_votes(responses, quorum_size);
        if gathered {
            return Ok(());
        }
        let mut message = String::from_str("No quorum");
        let mut i: usize = 0;
        while i < errors.len()
            invariant
                i <= errors.len(),
                message@ == no_quorum_message(errors@.take(i as int)),
            decreases errors.len() - i,
        {
            let err = errors[i];
            message.append(";");
            message.append(err);
            proof {
                let t = errors@.take(i as int + 1);
                assert(t.drop_last() =~= errors@.take(i as int));
                assert(t.last() == err);
            }
            i = i + 1;
        }
        assert(errors@.take(i as int) =~= errors@);
        return Err(message);
    }
    Ok(())
}

/// The peer gave the reply to a copy of the request.
pub open spec fn notified<Req: Clone, Resp, F: Fn(u64, Req) -> Result<Resp, &'static str>>(
    requester: F,
    request: Req,
    peer: u64,
    reply: Result<Resp, &'static str>,
) -> bool {
    exists|q: Req| cloned::<Req>(request, q) && #[trigger] requester.ensures((peer, q), reply)
}

/// Sends a copy of the request to each peer, in order, and decides the
/// notification from the replies (see `decide_notification`). Without peers
/// it succeeds at once.
pub fn notify_peers<Req, Resp, Requester>(
    request: Req,
    node_id: u64,
    peers: Vec<u64>,
    quorum: Option<u32>,
    requester: Requester,
) -> (r: Result<(), String>) where
    Requester: Fn(u64, Req) -> Result<Resp, &'static str>,
    Req: Clone,
    Resp: QuorumResponse,

    requires
        forall|p: u64, q: Req| #[trigger] requester.requires((p, q)),
    ensures
        peers@.len() == 0 ==> r is Ok,
        peers@.len() > 0 ==> exists|replies: Seq<Result<Resp, &'static str>>|
            {
                &&& replies.len() == peers@.len()
                &&& forall|i: int|
                    0 <= i < peers@.len() ==> notified(requester, request, peers@[i], #[trigger] replies[i])
                &&& match quorum {
                    None => r is Ok,
                    Some(q) => if quorum_gathered(votes_of(replies), q as nat) {
                        r is Ok
                    } else {
                        r matches Err(e) && e@ == no_quorum_message(errors_in(replies))
                    },
                }
            },
{
    if peers.len() == 0 {
        return Ok(());
    }
    let mut responses: Vec<Result<Resp, &'static str>> = Vec::new();
    let mut i: usize = 0;
    while i < peers.len()
        invariant
            i <= peers.len(),
            responses@.len() == i,
            forall|p: u64, q: Req| #[trigger] requester.requires((p, q)),
            forall|j: int| 0 <= j < i ==> notified(requester, request, peers@[j], #[trigger] responses@[j]),
        decreases peers.len() - i,
    {
        let copy = request.clone();
        let reply = requester(peers[i], copy);
        assert(notified(requester, request, peers@[i as int], reply));
        responses.push(reply);
        i = i + 1;
    }
    let ghost replies = responses@;
    let r = decide_notification(responses, quorum);
    assert(replies.len() == peers@.len());
    r
}

} // verus!
