//! The replicated state machine and how committed log entries reach it.

use vstd::prelude::*;

use crate::errors::RaftError;
use crate::operation_log::{
    DataEntryContent, EntryContent, EntryContentView, LogEntry, LogEntryView, OperationLog,
    indexed_in_order,
};

verus! {

/// A state machine that applies log entries in index order.
pub trait ReplicatedStateMachine {
    /// The index of the last applied entry.
    spec fn last_applied(&self) -> nat;

    /// The entries applied so far, in the order they were applied.
    spec fn applied(&self) -> Seq<LogEntryView>;

    /// The entries the state machine refused so far, in order.
    spec fn refused(&self) -> Seq<LogEntryView>;

    /// Applies an entry. An entry at or below the last applied index is
    /// skipped; a later one, once applied, is added to the applied entries
    /// and becomes the last applied. A refused entry is recorded as refused
    /// and changes nothing else.
    fn apply_entry(&mut self, entry: LogEntry) -> (r: Result<(), RaftError>)
        ensures
            entry.index <= old(self).last_applied() ==> {
                &&& r is Ok
                &&& final(self).last_applied() == old(self).last_applied()
                &&& final(self).applied() == old(self).applied()
            },
            entry.index > old(self).last_applied() && r is Ok ==> {
                &&& final(self).last_applied() == entry.index
                &&& final(self).applied() == old(self).applied().push(entry@)
            },
            r is Ok ==> final(self).refused() == old(self).refused(),
            r is Err ==> {
                &&& final(self).last_applied() == old(self).last_applied()
                &&& final(self).applied() == old(self).applied()
                &&& final(self).refused() == old(self).refused().push(entry@)
            },
    ;

    /// The index of the last applied entry.
    fn get_last_applied_entry_index(&self) -> (r: u64)
        ensures
            r == self.last_applied(),
    ;
}

/// The data that applying an entry adds: its data, if it carries data.
pub open spec fn data_of(content: EntryContentView) -> Seq<Seq<u8>> {
    match content {
        EntryContentView::Data(d) => seq![d],
        EntryContentView::AddServer(_) => Seq::empty(),
    }
}

/// The data and last applied index after applying an entry: an entry at or
/// below the last applied index is skipped; a later one adds its data and
/// becomes the last applied.
pub open spec fn apply_to(data: Seq<Seq<u8>>, last_applied: nat, entry: LogEntryView) -> (
    Seq<Seq<u8>>,
    nat,
) {
    if entry.index <= last_applied {
        (data, last_applied)
    } else {
        (data + data_of(entry.content), entry.index as nat)
    }
}

/// Applying an entry twice is applying it once.
pub proof fn lemma_apply_idempotent(data: Seq<Seq<u8>>, last_applied: nat, entry: LogEntryView)
    ensures
        apply_to(apply_to(data, last_applied, entry).0, apply_to(data, last_applied, entry).1, entry)
            == apply_to(data, last_applied, entry),
{
}

/// A state machine held in memory: the data of the applied entries, in order.
#[derive(Clone)]
pub struct MemoryRsm {
    data: Vec<DataEntryContent>,
    last_applied_index: u64,
    applied_entries: Ghost<Seq<LogEntryView>>,
}

impl MemoryRsm {
    /// The data applied so far.
    pub closed spec fn data_view(&self) -> Seq<Seq<u8>> {
        Seq::new(self.data@.len(), |i: int| self.data@[i].data@)
    }

    /// The index of the last applied entry.
    pub closed spec fn last_applied_view(&self) -> nat {
        self.last_applied_index as nat
    }

    /// An empty state machine.
    pub fn new() -> (m: MemoryRsm)
        ensures
            m.data_view() == Seq::<Seq<u8>>::empty(),
            m.last_applied_view() == 0,
            m.applied() == Seq::<LogEntryView>::empty(),
    {
        let m = MemoryRsm { data: Vec::new(), last_applied_index: 0, applied_entries: Ghost(Seq::empty()) };
        assert(m.data_view() =~= Seq::<Seq<u8>>::empty());
        m
    }

    /// The data applied so far, in order.
    pub fn data(&self) -> (d: &Vec<DataEntryContent>)
        ensures
            Seq::new(d@.len(), |i: int| d@[i].data@) == self.data_view(),
    {
        &self.data
    }
}

impl ReplicatedStateMachine for MemoryRsm {
    open spec fn last_applied(&self) -> nat {
        self.last_applied_view()
    }

    closed spec fn applied(&self) -> Seq<LogEntryView> {
        self.applied_entries@
    }

    /// This state machine refuses no entry.
    closed spec fn refused(&self) -> Seq<LogEntryView> {
        Seq::empty()
    }

    fn apply_entry(&mut self, entry: LogEntry) -> (r: Result<(), RaftError>)
        ensures
            r is Ok,
            (final(self).data_view(), final(self).last_applied_view()) == apply_to(
                old(self).data_view(),
                old(self).last_applied_view(),
                entry@,
            ),
            entry.index <= old(self).last_applied_view() ==> *final(self) == *old(self),
            entry.index > old(self).last_applied_view() ==> {
                &&& final(self).last_applied_view() == entry.index
                &&& final(self).data_view() == old(self).data_view() + data_of(entry.entry_content@)
            },
    {
        if self.last_applied_index >= entry.index {
            return Ok(());
        }
        let ghost old_data = self.data_view();
        if let EntryContent::Data(data_content) = entry.entry_content {
            self.data.push(data_content);
            assert(self.data_view() =~= old_data + data_of(entry@.content));
        } else {
            assert(self.data_view() =~= old_data + data_of(entry.entry_content@));
        }
        self.last_applied_index = entry.index;
        proof {
            self.applied_entries@ = self.applied_entries@.push(entry@);
        }
        Ok(())
    }

    fn get_last_applied_entry_index(&self) -> (r: u64) {
        self.last_applied_index
    }
}

/// A finite state machine held in memory: the data of the applied entries,
/// in order. It applies entries as `MemoryRsm` does.
#[derive(Clone)]
pub struct MemoryFsm {
    data: Vec<DataEntryContent>,
    last_applied_index: u64,
    applied_entries: Ghost<Seq<LogEntryView>>,
}

impl MemoryFsm {
    /// The data applied so far.
    pub closed spec fn data_view(&self) -> Seq<Seq<u8>> {
        Seq::new(self.data@.len(), |i: int| self.data@[i].data@)
    }

    /// The index of the last applied entry.
    pub closed spec fn last_applied_view(&self) -> nat {
        self.last_applied_index as nat
    }

    /// An empty state machine.
    pub fn new() -> (m: MemoryFsm)
        ensures
            m.data_view() == Seq::<Seq<u8>>::empty(),
            m.last_applied_view() == 0,
            m.applied() == Seq::<LogEntryView>::empty(),
    {
        let m = MemoryFsm { data: Vec::new(), last_applied_index: 0, applied_entries: Ghost(Seq::empty()) };
        assert(m.data_view() =~= Seq::<Seq<u8>>::empty());
        m
    }

    /// The data applied so far, in order.
    pub fn data(&self) -> (d: &Vec<DataEntryContent>)
        ensures
            Seq::new(d@.len(), |i: int| d@[i].data@) == self.data_view(),
    {
        &self.data
    }
}

impl Default for MemoryFsm {
    /// An empty state machine.
    fn default() -> (m: MemoryFsm)
        ensures
            m.data_view() == Seq::<Seq<u8>>::empty(),
            m.last_applied_view() == 0,
            m.applied() == Seq::<LogEntryView>::empty(),
    {
        MemoryFsm::new()
    }
}

impl ReplicatedStateMachine for MemoryFsm {
    open spec fn last_applied(&self) -> nat {
        self.last_applied_view()
    }

    closed spec fn applied(&self) -> Seq<LogEntryView> {
        self.applied_entries@
    }

    /// This state machine refuses no entry.
    closed spec fn refused(&self) -> Seq<LogEntryView> {
        Seq::empty()
    }

    fn apply_entry(&mut self, entry: LogEntry) -> (r: Result<(), RaftError>)
        ensures
            r is Ok,
            (final(self).data_view(), final(self).last_applied_view()) == apply_to(
                old(self).data_view(),
                old(self).last_applied_view(),
                entry@,
            ),
            entry.index <= old(self).last_applied_view() ==> *final(self) == *old(self),
            entry.index > old(self).last_applied_view() ==> {
                &&& final(self).last_applied_view() == entry.index
                &&& final(self).data_view() == old(self).data_view() + data_of(entry.entry_content@)
            },
    {
        if self.last_applied_index >= entry.index {
            return Ok(());
        }
        let ghost old_data = self.data_view();
        if let EntryContent::Data(data_content) = entry.entry_content {
            self.data.push(data_content);
            assert(self.data_view() =~= old_data + data_of(entry@.content));
        } else {
            assert(self.data_view() =~= old_data + data_of(entry.entry_content@));
        }
        self.last_applied_index = entry.index;
        proof {
            self.applied_entries@ = self.applied_entries@.push(entry@);
        }
        Ok(())
    }

    fn get_last_applied_entry_index(&self) -> (r: u64) {
        self.last_applied_index
    }
}

/// The last applied index after bringing a state machine up to a commit
/// index in a log whose entries sit at their indices: the entries after the
/// last applied one are applied up to the commit index, as far as the log
/// holds them.
pub open spec fn applied_up_to(last_applied: nat, commit_index: nat, log_len: nat) -> nat {
    let target = if commit_index <= log_len {
        commit_index
    } else {
        log_len
    };
    if last_applied >= target {
        last_applied
    } else {
        target
    }
}

/// How far an update still has to go: the distance from the last applied
/// index up to the commit index.
pub open spec fn update_distance(last_applied: nat, commit_index: nat) -> int {
    if last_applied < commit_index {
        commit_index - last_applied
    } else {
        0
    }
}

/// Whether an update takes a next step from the last applied index: it is
/// below the commit index and the log holds an entry at the next position,
/// whose index is above the last applied one.
pub open spec fn update_steps(entries: Seq<LogEntryView>, last_applied: nat, commit_index: nat) -> bool {
    &&& last_applied < commit_index
    &&& last_applied < entries.len()
    &&& entries[last_applied as int].index > last_applied
}

/// The entries that an update applies, in order, from the last applied
/// index: while the last applied index is below the commit index and the log
/// holds an entry at the next position, that entry is applied and its index
/// becomes the last applied.
pub open spec fn update_walk(entries: Seq<LogEntryView>, last_applied: nat, commit_index: nat) -> Seq<
    LogEntryView,
>
    decreases update_distance(last_applied, commit_index),
{
    if update_steps(entries, last_applied, commit_index) {
        seq![entries[last_applied as int]] + update_walk(
            entries,
            entries[last_applied as int].index as nat,
            commit_index,
        )
    } else {
        Seq::empty()
    }
}

/// The last applied index once an update has applied all its entries.
pub open spec fn update_end(entries: Seq<LogEntryView>, last_applied: nat, commit_index: nat) -> nat
    decreases update_distance(last_applied, commit_index),
{
    if update_steps(entries, last_applied, commit_index) {
        update_end(entries, entries[last_applied as int].index as nat, commit_index)
    } else {
        last_applied
    }
}

/// Whether an update from the last applied index comes to an end: it never
/// meets, below the commit index, an entry at the next position whose index
/// is not above the last applied one (applying such an entry changes
/// nothing, so the update would take it again and again).
pub open spec fn update_ends(entries: Seq<LogEntryView>, last_applied: nat, commit_index: nat) -> bool
    decreases update_distance(last_applied, commit_index),
{
    if last_applied < commit_index && last_applied < entries.len() {
        &&& entries[last_applied as int].index > last_applied
        &&& update_ends(entries, entries[last_applied as int].index as nat, commit_index)
    } else {
        true
    }
}

/// In a log whose entries sit at their indices, an update always ends, and
/// it applies exactly the entries after the last applied one up to the
/// commit index or the end of the log, in index order.
pub proof fn lemma_indexed_update(entries: Seq<LogEntryView>, last_applied: nat, commit_index: nat)
    requires
        indexed_in_order(entries),
    ensures
        update_ends(entries, last_applied, commit_index),
        update_end(entries, last_applied, commit_index) == applied_up_to(
            last_applied,
            commit_index,
            entries.len(),
        ),
        last_applied < applied_up_to(last_applied, commit_index, entries.len()) ==> update_walk(
            entries,
            last_applied,
            commit_index,
        ) == entries.subrange(
            last_applied as int,
            applied_up_to(last_applied, commit_index, entries.len()) as int,
        ),
        last_applied == applied_up_to(last_applied, commit_index, entries.len()) ==> update_walk(
            entries,
            last_applied,
            commit_index,
        ) == Seq::<LogEntryView>::empty(),
    decreases update_distance(last_applied, commit_index),
{
    let target = applied_up_to(last_applied, commit_index, entries.len());
    if last_applied < commit_index && last_applied < entries.len() {
        assert(entries[last_applied as int].index == last_applied + 1);
        lemma_indexed_update(entries, last_applied + 1, commit_index);
        assert(applied_up_to(last_applied + 1, commit_index, entries.len()) == target);
        if last_applied + 1 == target {
            assert(entries.subrange(last_applied + 1int, target as int) =~= Seq::<LogEntryView>::empty());
        }
        assert(entries.subrange(last_applied as int, target as int) =~= seq![
            entries[last_applied as int],
        ] + entries.subrange(last_applied + 1int, target as int));
    }
}

/// An update that was to apply `walk` stopped at its entry `k` because the
/// state machine refused that entry: the entries before it (`done`) were
/// applied, entry `k` was refused, and the last applied index is the last
/// of the applied ones (or the one before the update, when there are none).
pub open spec fn stopped_at(
    walk: Seq<LogEntryView>,
    done: Seq<LogEntryView>,
    k: int,
    last_before: nat,
    applied_before: Seq<LogEntryView>,
    applied_after: Seq<LogEntryView>,
    refused_before: Seq<LogEntryView>,
    refused_after: Seq<LogEntryView>,
    last_after: nat,
) -> bool {
    &&& 0 <= k < walk.len()
    &&& done == walk.take(k)
    &&& applied_after == applied_before + done
    &&& refused_after == refused_before.push(walk[k])
    &&& last_after == if k == 0 {
        last_before
    } else {
        walk[k - 1].index as nat
    }
}

/// Tests whether an update of the state machine up to the commit index comes
/// to an end (see `update_ends`).
pub fn update_fsm_ends<Log: OperationLog, Rsm: ReplicatedStateMachine>(
    log: &Log,
    rsm: &Rsm,
    new_commit_index: u64,
) -> (r: bool)
    requires
        log.inv(),
    ensures
        r == update_ends(log.entries_view(), rsm.last_applied(), new_commit_index as nat),
{
    let mut last = rsm.get_last_applied_entry_index();
    loop
        invariant
            log.inv(),
            update_ends(log.entries_view(), rsm.last_applied(), new_commit_index as nat)
                == update_ends(log.entries_view(), last as nat, new_commit_index as nat),
        decreases update_distance(last as nat, new_commit_index as nat),
    {
        if new_commit_index <= last {
            return true;
        }
        match log.entry(last + 1) {
            Some(entry) => {
                if entry.index <= last {
                    return false;
                }
                last = entry.index;
            },
            None => {
                return true;
            },
        }
    }
}

/// Brings the state machine up to the new commit index: from the last
/// applied index on, while it is below the commit index and the log holds an
/// entry at the next position, that entry is applied (see `update_walk`).
/// Each applied entry lets the update go on; the first entry the state
/// machine refuses stops it, and the state machine's error is returned. The
/// update
/// must come to an end (see `update_ends`; in a log whose entries sit at
/// their indices it always does, see `lemma_indexed_update`).
pub fn process_update_fsm_request<Log: OperationLog, Rsm: ReplicatedStateMachine>(
    log: &Log,
    rsm: &mut Rsm,
    new_commit_index: u64,
) -> (r: Result<(), RaftError>)
    requires
        log.inv(),
        update_ends(log.entries_view(), old(rsm).last_applied(), new_commit_index as nat),
    ensures
        r is Ok ==> {
            &&& final(rsm).applied() == old(rsm).applied() + update_walk(
                log.entries_view(),
                old(rsm).last_applied(),
                new_commit_index as nat,
            )
            &&& final(rsm).last_applied() == update_end(
                log.entries_view(),
                old(rsm).last_applied(),
                new_commit_index as nat,
            )
        },
        r is Err ==> exists|k: int|
            stopped_at(
                update_walk(log.entries_view(), old(rsm).last_applied(), new_commit_index as nat),
                #[trigger] update_walk(log.entries_view(), old(rsm).last_applied(), new_commit_index as nat).take(k),
                k,
                old(rsm).last_applied(),
                old(rsm).applied(),
                final(rsm).applied(),
                old(rsm).refused(),
                final(rsm).refused(),
                final(rsm).last_applied(),
            ),
        r is Ok ==> final(rsm).refused() == old(rsm).refused(),
        old(rsm).last_applied() <= final(rsm).last_applied(),
{
    let ghost entries = log.entries_view();
    let ghost a = rsm.last_applied();
    let ghost c = new_commit_index as nat;
    let ghost mut done: Seq<LogEntryView> = Seq::empty();
    assert(done + update_walk(entries, a, c) =~= update_walk(entries, a, c));
    loop
        invariant
            log.inv(),
            entries == log.entries_view(),
            c == new_commit_index as nat,
            a == old(rsm).last_applied(),
            update_ends(entries, rsm.last_applied(), c),
            a <= rsm.last_applied(),
            rsm.applied() == old(rsm).applied() + done,
            rsm.refused() == old(rsm).refused(),
            done + update_walk(entries, rsm.last_applied(), c) == update_walk(entries, a, c),
            update_end(entries, rsm.last_applied(), c) == update_end(entries, a, c),
            rsm.last_applied() == if done.len() == 0 {
                a
            } else {
                done.last().index as nat
            },
        decreases update_distance(rsm.last_applied(), c),
    {
        let last_applied = rsm.get_last_applied_entry_index();
        if new_commit_index > last_applied {
            let entry_index = last_applied + 1;
            match log.entry(entry_index) {
                Some(entry) => {
                    let ghost ev = entry@;
                    let ghost before = rsm.applied();
                    let ghost rest = update_walk(entries, last_applied as nat, c);
                    assert(ev == entries[last_applied as int]);
                    assert(update_steps(entries, last_applied as nat, c));
                    assert(rest == seq![ev] + update_walk(entries, ev.index as nat, c));
                    let applied = rsm.apply_entry(entry);
                    if let Err(err) = applied {
                        proof {
                            let walk = update_walk(entries, a, c);
                            let k = done.len() as int;
                            assert(walk.take(k) =~= done);
                            assert(walk[k] == ev);
                            if k > 0 {
                                assert(walk[k - 1] == done.last());
                            }
                        }
                        return Err(err);
                    }
                    proof {
                        assert(done.push(ev) + update_walk(entries, ev.index as nat, c) =~= done + rest);
                        done = done.push(ev);
                        assert(rsm.applied() =~= old(rsm).applied() + done);
                    }
                },
                None => {
                    assert(update_walk(entries, last_applied as nat, c) =~= Seq::<LogEntryView>::empty());
                    assert(done =~= update_walk(entries, a, c));
                    return Ok(());
                },
            }
        } else {
            assert(update_walk(entries, last_applied as nat, c) =~= Seq::<LogEntryView>::empty());
            assert(done =~= update_walk(entries, a, c));
            return Ok(());
        }
    }
}

} // verus!
