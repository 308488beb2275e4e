//! Election timers: how long a follower waits for its leader before it
//! starts an election. Durations are in milliseconds.

use vstd::prelude::*;

verus! {

/// `rand::Rng::gen_range` on `rand::thread_rng()`: a number drawn uniformly
/// from `[low, high)`. rand panics when `low >= high`, so that is excluded;
/// the draw itself depends on chance, so only its range is stated.
#[verifier::external_body]
fn random_in_range(low: u64, high: u64) -> (r: u64)
    requires
        low < high,
    ensures
        low <= r < high,
{
    let mut rng = rand::thread_rng();
    rand::Rng::gen_range(&mut rng, low, high)
}

/// Computes the timeout after which a follower starts an election.
pub trait ElectionTimer {
    /// Whether a timeout can be computed.
    spec fn can_compute(&self) -> bool;

    /// Whether a timeout can be computed, tested.
    fn can_compute_timeout(&self) -> (r: bool)
        ensures
            r == self.can_compute(),
    ;

    /// The next election timeout, in milliseconds.
    fn next_elections_timeout(&self) -> u64
        requires
            self.can_compute(),
    ;
}

/// Always the same timeout; for tests that need a given node to win.
#[derive(Clone, Copy, Debug, PartialEq, Eq, Structural, Hash)]
pub struct FixedElectionTimer {
    fixed_duration_ms: u64,
}

impl FixedElectionTimer {
    /// The fixed timeout, in milliseconds.
    pub closed spec fn duration_view(&self) -> u64 {
        self.fixed_duration_ms
    }

    /// A timer with the given fixed timeout, in milliseconds.
    pub fn new(fixed_duration_ms: u64) -> (t: FixedElectionTimer)
        ensures
            t.duration_view() == fixed_duration_ms,
    {
        FixedElectionTimer { fixed_duration_ms }
    }
}

impl ElectionTimer for FixedElectionTimer {
    open spec fn can_compute(&self) -> bool {
        true
    }

    fn can_compute_timeout(&self) -> (r: bool) {
        true
    }

    fn next_elections_timeout(&self) -> (ms: u64)
        ensures
            ms == self.duration_view(),
    {
        self.fixed_duration_ms
    }
}

/// A timeout drawn at random from a range, so that nodes rarely time out
/// together.
#[derive(Clone, Copy, Debug, PartialEq, Eq, Structural, Hash)]
pub struct RandomizedElectionTimer {
    range_start_ms: u64,
    range_stop_ms: u64,
}

impl RandomizedElectionTimer {
    /// The start of the range, in milliseconds.
    pub closed spec fn start_view(&self) -> u64 {
        self.range_start_ms
    }

    /// The end of the range (excluded), in milliseconds.
    pub closed spec fn stop_view(&self) -> u64 {
        self.range_stop_ms
    }

    /// A timer drawing from `[range_start_ms, range_stop_ms)`. The range is
    /// not reversed and does not end at 0.
    pub fn new(range_start_ms: u64, range_stop_ms: u64) -> (t: RandomizedElectionTimer)
        requires
            range_start_ms <= range_stop_ms,
            range_stop_ms != 0,
        ensures
            t.start_view() == range_start_ms,
            t.stop_view() == range_stop_ms,
    {
        RandomizedElectionTimer { range_start_ms, range_stop_ms }
    }
}

impl ElectionTimer for RandomizedElectionTimer {
    /// A draw needs a non-empty range.
    open spec fn can_compute(&self) -> bool {
        self.start_view() < self.stop_view()
    }

    fn can_compute_timeout(&self) -> (r: bool) {
        self.range_start_ms < self.range_stop_ms
    }

    fn next_elections_timeout(&self) -> (ms: u64)
        ensures
            self.start_view() <= ms < self.stop_view(),
    {
        random_in_range(self.range_start_ms, self.range_stop_ms)
    }
}

/// A random time to wait for a leader: from 1000 up to 4000 milliseconds.
pub fn random_awaiting_leader_duration_ms() -> (ms: u64)
    ensures
        1000 <= ms < 4000,
{
    let range_start: u64 = 1000;
    let range_stop: u64 = 4000;
    random_in_range(range_start, range_stop)
}

/// Node timings, in milliseconds.
#[derive(Clone, Copy, Debug, PartialEq, Eq, Structural, Hash)]
pub struct NodeTimings {
    /// The leader's heartbeat period.
    pub heartbeat_timeout: u64,
    /// The timeout of a request to a peer.
    pub communication_timeout: u64,
}

impl Default for NodeTimings {
    fn default() -> (t: NodeTimings)
        ensures
            t == (NodeTimings { heartbeat_timeout: 1000, communication_timeout: 1000 }),
    {
        NodeTimings { heartbeat_timeout: 1000, communication_timeout: 1000 }
    }
}

} // verus!
