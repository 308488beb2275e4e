//! The messages as the gRPC transport carries them, and the conversions
//! between them and the library's messages.

use vstd::prelude::*;

use crate::messages;
use crate::operation_log::{
    DataEntryContent, EntryContent, EntryContentView, LogEntryView,
    NewClusterConfigurationEntryContent, views_of,
};

verus! {

/// The content type of a log entry carrying client data.
pub const CONTENT_TYPE_DATA: i32 = 1;

/// The content type of a log entry carrying a cluster configuration.
pub const CONTENT_TYPE_CONFIGURATION: i32 = 2;

/// Vote request on the wire.
#[derive(Clone, Copy, Debug, PartialEq, Eq, Structural, Hash, Default)]
pub struct VoteRequest {
    /// The election term.
    pub term: u64,
    /// The candidate.
    pub candidate_id: u64,
    /// The term of the candidate's last log entry.
    pub last_log_term: u64,
    /// The index of the candidate's last log entry.
    pub last_log_index: u64,
}

/// Vote response on the wire.
#[derive(Clone, Copy, Debug, PartialEq, Eq, Structural, Hash, Default)]
pub struct VoteResponse {
    /// The term of the answering node.
    pub term: u64,
    /// Whether the vote is granted.
    pub vote_granted: bool,
    /// The answering node.
    pub peer_id: u64,
}

/// Log entry on the wire: a content type, and the data or the configuration.
#[derive(Clone, Debug, PartialEq, Eq, Hash, Default)]
pub struct LogEntry {
    /// The entry's index.
    pub index: u64,
    /// The entry's term.
    pub term: u64,
    /// `CONTENT_TYPE_DATA` or `CONTENT_TYPE_CONFIGURATION`.
    pub content_type: i32,
    /// The data, for a data entry.
    pub data: Vec<u8>,
    /// The configuration, for a configuration entry.
    pub new_cluster_configuration: Vec<u64>,
}

/// Append entries request on the wire.
#[derive(Clone, Debug, PartialEq, Eq, Hash, Default)]
pub struct AppendEntriesRequest {
    /// The leader's term.
    pub term: u64,
    /// The term of the entry before the new ones.
    pub prev_log_term: u64,
    /// The index of the entry before the new ones.
    pub prev_log_index: u64,
    /// The leader.
    pub leader_id: u64,
    /// The leader's commit index.
    pub leader_commit: u64,
    /// The entries.
    pub entries: Vec<LogEntry>,
}

/// Append entries response on the wire.
#[derive(Clone, Copy, Debug, PartialEq, Eq, Structural, Hash, Default)]
pub struct AppendEntriesResponse {
    /// The term of the answering node.
    pub term: u64,
    /// Whether the entries were taken.
    pub success: bool,
}

/// Client add server request on the wire.
#[derive(Clone, Copy, Debug, PartialEq, Eq, Structural, Hash, Default)]
pub struct AddServerRequest {
    /// The new node.
    pub new_server: u64,
}

/// Client new data request on the wire.
#[derive(Clone, Debug, PartialEq, Eq, Hash, Default)]
pub struct NewDataRequest {
    /// The serialized command.
    pub data: Vec<u8>,
}

/// Client response on the wire: status 1 is success, 2 not leader, 3 no
/// quorum, 4 error; leader 0 means no known leader.
#[derive(Clone, Debug, PartialEq, Eq, Hash, Default)]
pub struct ClientRpcResponse {
    /// The status code.
    pub status: i32,
    /// The known leader, or 0.
    pub current_leader: u64,
    /// An error message.
    pub message: String,
}

/// A log entry on the wire as plain values.
pub struct LogEntryWireView {
    /// The entry's index.
    pub index: u64,
    /// The entry's term.
    pub term: u64,
    /// The content type.
    pub content_type: i32,
    /// The data.
    pub data: Seq<u8>,
    /// The configuration.
    pub new_cluster_configuration: Seq<u64>,
}

impl View for LogEntry {
    type V = LogEntryWireView;

    open spec fn view(&self) -> LogEntryWireView {
        LogEntryWireView {
            index: self.index,
            term: self.term,
            content_type: self.content_type,
            data: self.data@,
            new_cluster_configuration: self.new_cluster_configuration@,
        }
    }
}

/// How a log entry goes on the wire: a data entry with its data and no
/// configuration, a configuration entry with its configuration and no data.
pub open spec fn entry_to_wire(e: LogEntryView) -> LogEntryWireView {
    match e.content {
        EntryContentView::Data(d) => LogEntryWireView {
            index: e.index,
            term: e.term,
            content_type: CONTENT_TYPE_DATA,
            data: d,
            new_cluster_configuration: Seq::empty(),
        },
        EntryContentView::AddServer(c) => LogEntryWireView {
            index: e.index,
            term: e.term,
            content_type: CONTENT_TYPE_CONFIGURATION,
            data: Seq::empty(),
            new_cluster_configuration: c,
        },
    }
}

/// A log entry read from the wire: the content type picks the data or the
/// configuration.
pub open spec fn entry_from_wire(w: LogEntryWireView) -> LogEntryView {
    LogEntryView {
        index: w.index,
        term: w.term,
        content: if w.content_type == CONTENT_TYPE_DATA {
            EntryContentView::Data(w.data)
        } else {
            EntryContentView::AddServer(w.new_cluster_configuration)
        },
    }
}

/// The content type is one that the transport knows.
pub open spec fn known_content_type(content_type: i32) -> bool {
    content_type == CONTENT_TYPE_DATA || content_type == CONTENT_TYPE_CONFIGURATION
}

/// Puts a log entry on the wire (see `entry_to_wire`).
pub fn log_entry_to_grpc(entry: &crate::operation_log::LogEntry) -> (w: LogEntry)
    ensures
        w@ == entry_to_wire(entry@),
        w.index == entry.index,
        w.term == entry.term,
{
    match &entry.entry_content {
        EntryContent::Data(content) => {
            let data = content.data.clone();
            assert(data@ =~= content.data@);
            let w = LogEntry {
                index: entry.index,
                term: entry.term,
                content_type: CONTENT_TYPE_DATA,
                data,
                new_cluster_configuration: Vec::new(),
            };
            assert(w@.new_cluster_configuration =~= Seq::<u64>::empty());
            w
        },
        EntryContent::AddServer(content) => {
            let cfg = content.new_cluster_configuration.clone();
            assert(cfg@ =~= content.new_cluster_configuration@);
            let w = LogEntry {
                index: entry.index,
                term: entry.term,
                content_type: CONTENT_TYPE_CONFIGURATION,
                data: Vec::new(),
                new_cluster_configuration: cfg,
            };
            assert(w@.data =~= Seq::<u8>::empty());
            w
        },
    }
}

/// Reads a log entry from the wire (see `entry_from_wire`). The content type
/// is one of the two known ones.
pub fn log_entry_from_grpc(entry: LogEntry) -> (e: crate::operation_log::LogEntry)
    requires
        known_content_type(entry.content_type),
    ensures
        e@ == entry_from_wire(entry@),
        e.index == entry.index,
        e.term == entry.term,
{
    let content = if entry.content_type == CONTENT_TYPE_DATA {
        EntryContent::Data(DataEntryContent { data: entry.data })
    } else {
        EntryContent::AddServer(
            NewClusterConfigurationEntryContent {
                new_cluster_configuration: entry.new_cluster_configuration,
            },
        )
    };
    crate::operation_log::LogEntry { term: entry.term, index: entry.index, entry_content: content }
}

/// The wire entries of a request, as plain values.
pub open spec fn wire_views(entries: Seq<LogEntry>) -> Seq<LogEntryWireView> {
    Seq::new(entries.len(), |i: int| entries[i]@)
}

/// Log entries put on the wire, in order.
pub open spec fn entries_to_wire(entries: Seq<LogEntryView>) -> Seq<LogEntryWireView> {
    Seq::new(entries.len(), |i: int| entry_to_wire(entries[i]))
}

/// Log entries read from the wire, in order.
pub open spec fn entries_from_wire(entries: Seq<LogEntryWireView>) -> Seq<LogEntryView> {
    Seq::new(entries.len(), |i: int| entry_from_wire(entries[i]))
}

/// Putting entries on the wire and reading them back gives the same entries,
/// and entries on the wire carry only known content types.
pub proof fn lemma_wire_round_trip(entries: Seq<LogEntryView>)
    ensures
        entries_from_wire(entries_to_wire(entries)) == entries,
        forall|i: int|
            0 <= i < entries.len() ==> known_content_type(#[trigger] entries_to_wire(entries)[i].content_type),
{
    assert(entries_from_wire(entries_to_wire(entries)) =~= entries);
}

/// Puts an append entries request on the wire: the same fields, each entry
/// put on the wire in order.
pub fn append_entries_request_to_grpc(request: messages::AppendEntriesRequest) -> (w:
    AppendEntriesRequest)
    ensures
        w.term == request.term,
        w.leader_commit == request.leader_commit,
        w.leader_id == request.leader_id,
        w.prev_log_index == request.prev_log_index,
        w.prev_log_term == request.prev_log_term,
        wire_views(w.entries@) == entries_to_wire(views_of(request.entries@)),
{
    let mut entries: Vec<LogEntry> = Vec::new();
    let mut i: usize = 0;
    while i < request.entries.len()
        invariant
            i <= request.entries@.len(),
            wire_views(entries@) == entries_to_wire(views_of(request.entries@.take(i as int))),
        decreases request.entries.len() - i,
    {
        let w = log_entry_to_grpc(&request.entries[i]);
        let ghost prev = entries@;
        let ghost wv = w@;
        assert(wv == entry_to_wire(request.entries@[i as int]@));
        entries.push(w);
        assert(entries@ == prev.push(w));
        assert(wire_views(prev).len() == i);
        assert(wire_views(entries@)[i as int] == wv);
        i = i + 1;
        assert forall|j: int| 0 <= j < i implies #[trigger] wire_views(entries@)[j] == entries_to_wire(
            views_of(request.entries@.take(i as int)),
        )[j] by {
            assert(request.entries@.take(i as int)[j] == request.entries@[j]);
            if j < i - 1 {
                assert(wire_views(prev)[j] == entries_to_wire(views_of(request.entries@.take(i - 1)))[j]);
                assert(request.entries@.take(i - 1)[j] == request.entries@[j]);
            } else {
                assert(wire_views(entries@)[j] == wv);
            }
        }
        assert(wire_views(entries@) =~= entries_to_wire(views_of(request.entries@.take(i as int))));
    }
    assert(request.entries@.take(i as int) =~= request.entries@);
    AppendEntriesRequest {
        term: request.term,
        leader_commit: request.leader_commit,
        leader_id: request.leader_id,
        prev_log_index: request.prev_log_index,
        prev_log_term: request.prev_log_term,
        entries,
    }
}

/// Reads an append entries request from the wire: the same fields, each
/// entry read in order. Every entry's content type is one of the two known
/// ones.
pub fn append_entries_request_from_grpc(request: AppendEntriesRequest) -> (r:
    messages::AppendEntriesRequest)
    requires
        forall|i: int|
            0 <= i < request.entries@.len() ==> known_content_type(
                #[trigger] request.entries@[i].content_type,
            ),
    ensures
        r.term == request.term,
        r.prev_log_term == request.prev_log_term,
        r.prev_log_index == request.prev_log_index,
        r.leader_id == request.leader_id,
        r.leader_commit == request.leader_commit,
        views_of(r.entries@) == entries_from_wire(wire_views(request.entries@)),
{
    let mut entries: Vec<crate::operation_log::LogEntry> = Vec::new();
    let ghost wire_entries = request.entries@;
    let total = request.entries.len();
    let mut rest = request.entries;
    let mut i: usize = 0;
    while rest.len() > 0
        invariant
            i + rest@.len() == wire_entries.len(),
            wire_entries.len() == total,
            rest@ == wire_entries.skip(i as int),
            forall|j: int|
                0 <= j < wire_entries.len() ==> known_content_type(#[trigger] wire_entries[j].content_type),
            views_of(entries@) == entries_from_wire(wire_views(wire_entries.take(i as int))),
        decreases rest.len(),
    {
        let w = rest.remove(0);
        assert(w == wire_entries[i as int]);
        let e = log_entry_from_grpc(w);
        let ghost prev = entries@;
        let ghost ev = e@;
        entries.push(e);
        assert(views_of(prev).len() == i);
        assert(views_of(entries@)[i as int] == ev);
        i = i + 1;
        assert forall|j: int| 0 <= j < i implies #[trigger] views_of(entries@)[j] == entries_from_wire(
            wire_views(wire_entries.take(i as int)),
        )[j] by {
            assert(wire_entries.take(i as int)[j] == wire_entries[j]);
            if j < i - 1 {
                assert(views_of(prev)[j] == entries_from_wire(wire_views(wire_entries.take(i - 1)))[j]);
                assert(wire_entries.take(i - 1)[j] == wire_entries[j]);
            } else {
                assert(views_of(entries@)[j] == ev);
            }
        }
        assert(rest@ =~= wire_entries.skip(i as int));
        assert(views_of(entries@) =~= entries_from_wire(wire_views(wire_entries.take(i as int))));
    }
    assert(wire_entries.take(i as int) =~= wire_entries);
    messages::AppendEntriesRequest {
        term: request.term,
        prev_log_term: request.prev_log_term,
        prev_log_index: request.prev_log_index,
        leader_id: request.leader_id,
        leader_commit: request.leader_commit,
        entries,
    }
}

/// Puts a vote request on the wire: the same fields.
pub fn vote_request_to_grpc(request: messages::VoteRequest) -> (w: VoteRequest)
    ensures
        w == (VoteRequest {
            term: request.term,
            candidate_id: request.candidate_id,
            last_log_term: request.last_log_term,
            last_log_index: request.last_log_index,
        }),
{
    VoteRequest {
        term: request.term,
        candidate_id: request.candidate_id,
        last_log_term: request.last_log_term,
        last_log_index: request.last_log_index,
    }
}

/// Reads a vote request from the wire: the same fields.
pub fn vote_request_from_grpc(request: &VoteRequest) -> (r: messages::VoteRequest)
    ensures
        r == (messages::VoteRequest {
            term: request.term,
            candidate_id: request.candidate_id,
            last_log_term: request.last_log_term,
            last_log_index: request.last_log_index,
        }),
{
    messages::VoteRequest {
        term: request.term,
        candidate_id: request.candidate_id,
        last_log_term: request.last_log_term,
        last_log_index: request.last_log_index,
    }
}

/// Puts a vote response on the wire: the same fields.
pub fn vote_response_to_grpc(response: messages::VoteResponse) -> (w: VoteResponse)
    ensures
        w == (VoteResponse {
            term: response.term,
            vote_granted: response.vote_granted,
            peer_id: response.peer_id,
        }),
{
    VoteResponse { term: response.term, vote_granted: response.vote_granted, peer_id: response.peer_id }
}

/// Reads a vote response from the wire: the same fields.
pub fn vote_response_from_grpc(response: &VoteResponse) -> (r: messages::VoteResponse)
    ensures
        r == (messages::VoteResponse {
            vote_granted: response.vote_granted,
            term: response.term,
            peer_id: response.peer_id,
        }),
{
    messages::VoteResponse {
        vote_granted: response.vote_granted,
        term: response.term,
        peer_id: response.peer_id,
    }
}

/// Puts an append entries response on the wire: the same fields.
pub fn append_entries_response_to_grpc(response: messages::AppendEntriesResponse) -> (w:
    AppendEntriesResponse)
    ensures
        w == (AppendEntriesResponse { term: response.term, success: response.success }),
{
    AppendEntriesResponse { term: response.term, success: response.success }
}

/// Reads an append entries response from the wire: the same fields.
pub fn append_entries_response_from_grpc(response: &AppendEntriesResponse) -> (r:
    messages::AppendEntriesResponse)
    ensures
        r == (messages::AppendEntriesResponse { success: response.success, term: response.term }),
{
    messages::AppendEntriesResponse { success: response.success, term: response.term }
}

/// The status that a wire status code stands for.
pub open spec fn status_from_code(code: i32) -> messages::ClientResponseStatus {
    if code == 1 {
        messages::ClientResponseStatus::Success
    } else if code == 2 {
        messages::ClientResponseStatus::NotLeader
    } else if code == 3 {
        messages::ClientResponseStatus::NoQuorum
    } else {
        messages::ClientResponseStatus::Error
    }
}

/// Reads a client response from the wire: leader 0 means no known leader,
/// the status code gives the status. The code is one of the four known
/// ones.
pub fn client_response_from_grpc(response: &ClientRpcResponse) -> (r: messages::ClientRpcResponse)
    requires
        1 <= response.status <= 4,
    ensures
        r.current_leader == (if response.current_leader > 0 {
            Some(response.current_leader)
        } else {
            None::<u64>
        }),
        r.status == status_from_code(response.status),
        r.message@ == response.message@,
{
    let mut current_leader: Option<u64> = None;
    let response_current_leader = response.current_leader;
    if response_current_leader > 0 {
        current_leader = Some(response_current_leader);
    }
    let status = if response.status == 1 {
        messages::ClientResponseStatus::Success
    } else if response.status == 2 {
        messages::ClientResponseStatus::NotLeader
    } else if response.status == 3 {
        messages::ClientResponseStatus::NoQuorum
    } else {
        messages::ClientResponseStatus::Error
    };
    messages::ClientRpcResponse { current_leader, status, message: response.message.clone() }
}

/// The wire status code of a status: 1 success, 2 not the leader, 3 no
/// quorum, 4 another error.
pub open spec fn status_code(status: messages::ClientResponseStatus) -> i32 {
    match status {
        messages::ClientResponseStatus::Success => 1,
        messages::ClientResponseStatus::NotLeader => 2,
        messages::ClientResponseStatus::NoQuorum => 3,
        messages::ClientResponseStatus::Error => 4,
    }
}

/// Puts a client response on the wire: the known leader or 0, the status's
/// code, and the message.
pub fn client_response_to_grpc(response: messages::ClientRpcResponse) -> (w: ClientRpcResponse)
    ensures
        w.current_leader == (match response.current_leader {
            Some(id) => id,
            None => 0,
        }),
        w.status == status_code(response.status),
        w.message@ == response.message@,
{
    let current_leader = match response.current_leader {
        Some(id) => id,
        None => 0,
    };
    let status: i32 = match response.status {
        messages::ClientResponseStatus::Success => 1,
        messages::ClientResponseStatus::NotLeader => 2,
        messages::ClientResponseStatus::NoQuorum => 3,
        messages::ClientResponseStatus::Error => 4,
    };
    ClientRpcResponse { current_leader, status, message: response.message }
}

/// A client response that names no leader 0 comes back from the wire as it
/// was sent: status, leader and message.
pub proof fn lemma_client_response_round_trip(response: messages::ClientRpcResponse, w: ClientRpcResponse)
    requires
        response.current_leader != Some(0u64),
        w.current_leader == (match response.current_leader {
            Some(id) => id,
            None => 0,
        }),
        w.status == status_code(response.status),
    ensures
        1 <= w.status <= 4,
        status_from_code(w.status) == response.status,
        (if w.current_leader > 0 {
            Some(w.current_leader)
        } else {
            None::<u64>
        }) == response.current_leader,
{
}

/// Puts an add server request on the wire.
pub fn add_server_request_to_grpc(request: messages::AddServerRequest) -> (w: AddServerRequest)
    ensures
        w.new_server == request.new_server,
{
    AddServerRequest { new_server: request.new_server }
}

/// Reads an add server request from the wire.
pub fn add_server_request_from_grpc(request: AddServerRequest) -> (r: messages::AddServerRequest)
    ensures
        r.new_server == request.new_server,
{
    messages::AddServerRequest { new_server: request.new_server }
}

/// Puts a new data request on the wire.
pub fn new_data_request_to_grpc(request: messages::NewDataRequest) -> (w: NewDataRequest)
    ensures
        w.data@ == request.data@,
{
    NewDataRequest { data: request.data }
}

/// Reads a new data request from the wire.
pub fn new_data_request_from_grpc(request: NewDataRequest) -> (r: messages::NewDataRequest)
    ensures
        r.data@ == request.data@,
{
    messages::NewDataRequest { data: request.data }
}

/// On the wire an entry keeps its index in the index field and its term in
/// the term field, with the content type that says what it carries; read
/// back, the fields come out where they were. The same holds entry by entry
/// of a sequence.
pub proof fn lemma_wire_keeps_fields(e: LogEntryView, w: LogEntryWireView, es: Seq<LogEntryView>)
    ensures
        entry_to_wire(e).index == e.index,
        entry_to_wire(e).term == e.term,
        e.content is Data ==> entry_to_wire(e).content_type == 1 && entry_to_wire(e).data
            == e.content->Data_0,
        e.content is AddServer ==> entry_to_wire(e).content_type == 2
            && entry_to_wire(e).new_cluster_configuration == e.content->AddServer_0,
        entry_from_wire(w).index == w.index,
        entry_from_wire(w).term == w.term,
        forall|i: int|
            0 <= i < es.len() ==> #[trigger] entries_to_wire(es)[i].index == es[i].index
                && entries_to_wire(es)[i].term == es[i].term,
{
}

} // verus!
