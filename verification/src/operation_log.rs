//! The operation log: numbered, termed entries that carry client data or a
//! new cluster configuration.

use vstd::prelude::*;

use crate::cluster::ClusterConfiguration;
use crate::errors::RaftError;

verus! {

/// Client data (a command) in serialized form.
#[derive(Clone, Debug, PartialEq, Eq, Hash)]
pub struct DataEntryContent {
    /// The serialized command.
    pub data: Vec<u8>,
}

/// A new cluster configuration: the ids of the nodes to add.
#[derive(Clone, Debug, PartialEq, Eq, Hash)]
pub struct NewClusterConfigurationEntryContent {
    /// The ids of the nodes of the new configuration.
    pub new_cluster_configuration: Vec<u64>,
}

/// The content of a log entry.
#[derive(Clone, Debug, PartialEq, Eq, Hash)]
pub enum EntryContent {
    /// A change of the cluster configuration.
    AddServer(NewClusterConfigurationEntryContent),
    /// Client data.
    Data(DataEntryContent),
}

/// An entry of the operation log.
#[derive(Clone, Debug, PartialEq, Eq, Hash)]
pub struct LogEntry {
    /// The position of the entry in the log, from 1.
    pub index: u64,
    /// The election term in which the entry was created.
    pub term: u64,
    /// What the entry carries.
    pub entry_content: EntryContent,
}

/// The content of a log entry as plain values.
pub enum EntryContentView {
    /// The ids of a new cluster configuration.
    AddServer(Seq<u64>),
    /// Client data.
    Data(Seq<u8>),
}

/// A log entry as plain values.
pub struct LogEntryView {
    /// The position of the entry in the log, from 1.
    pub index: u64,
    /// The election term of the entry.
    pub term: u64,
    /// What the entry carries.
    pub content: EntryContentView,
}

impl View for EntryContent {
    type V = EntryContentView;

    open spec fn view(&self) -> EntryContentView {
        match self {
            EntryContent::AddServer(c) => EntryContentView::AddServer(c.new_cluster_configuration@),
            EntryContent::Data(d) => EntryContentView::Data(d.data@),
        }
    }
}

impl View for LogEntry {
    type V = LogEntryView;

    open spec fn view(&self) -> LogEntryView {
        LogEntryView { index: self.index, term: self.term, content: self.entry_content@ }
    }
}

impl EntryContent {
    /// A copy of the content.
    pub fn duplicate(&self) -> (r: EntryContent)
        ensures
            r@ == self@,
    {
        match self {
            EntryContent::AddServer(c) => {
                let v = c.new_cluster_configuration.clone();
                assert(v@ =~= c.new_cluster_configuration@);
                EntryContent::AddServer(NewClusterConfigurationEntryContent { new_cluster_configuration: v })
            },
            EntryContent::Data(d) => {
                let v = d.data.clone();
                assert(v@ =~= d.data@);
                EntryContent::Data(DataEntryContent { data: v })
            },
        }
    }
}

impl LogEntry {
    /// A copy of the entry.
    pub fn duplicate(&self) -> (r: LogEntry)
        ensures
            r@ == self@,
    {
        LogEntry { index: self.index, term: self.term, entry_content: self.entry_content.duplicate() }
    }
}

/// Entry `i` of the sequence (from 0) has index `i + 1`.
pub open spec fn indexed_in_order(entries: Seq<LogEntryView>) -> bool {
    forall|i: int| 0 <= i < entries.len() ==> #[trigger] entries[i].index == i + 1
}

/// The entry at the given position (from 1), if the log holds one.
pub open spec fn entry_at(entries: Seq<LogEntryView>, index: u64) -> Option<LogEntryView> {
    if 1 <= index <= entries.len() {
        Some(entries[index - 1])
    } else {
        None
    }
}

/// The entries after appending an entry to a log whose last index is
/// `last_index`: when the entry's index is at most the last index, the
/// entries from its position on are replaced by it; otherwise it is added
/// at the end.
pub open spec fn appended(entries: Seq<LogEntryView>, last_index: nat, entry: LogEntryView) -> Seq<
    LogEntryView,
> {
    if entry.index <= last_index {
        entries.take(entry.index - 1).push(entry)
    } else {
        entries.push(entry)
    }
}

/// The index of the last entry, 0 for an empty log.
pub open spec fn last_index_of(entries: Seq<LogEntryView>) -> u64 {
    if entries.len() == 0 {
        0
    } else {
        entries.last().index
    }
}

/// The term of the last entry, 0 for an empty log.
pub open spec fn last_term_of(entries: Seq<LogEntryView>) -> u64 {
    if entries.len() == 0 {
        0
    } else {
        entries.last().term
    }
}

/// The entries as plain values.
pub open spec fn views_of(entries: Seq<LogEntry>) -> Seq<LogEntryView> {
    Seq::new(entries.len(), |i: int| entries[i]@)
}

/// What a read gives back of a write, for a log whose entries sit at their
/// indices: after an entry is appended at an index up to one past the last,
/// reading that index gives the entry, the entry is the last one, the
/// entries before it are unchanged, nothing follows it, and every entry
/// still sits at its index.
pub proof fn lemma_append_then_read(entries: Seq<LogEntryView>, entry: LogEntryView)
    requires
        indexed_in_order(entries),
        1 <= entry.index <= entries.len() + 1,
    ensures
        entry_at(appended(entries, entries.len(), entry), entry.index) == Some(entry),
        last_index_of(appended(entries, entries.len(), entry)) == entry.index,
        last_term_of(appended(entries, entries.len(), entry)) == entry.term,
        appended(entries, entries.len(), entry).len() == entry.index,
        forall|i: u64|
            1 <= i < entry.index ==> #[trigger] entry_at(appended(entries, entries.len(), entry), i)
                == entry_at(entries, i),
        forall|i: u64| i > entry.index ==> #[trigger] entry_at(appended(entries, entries.len(), entry), i) is None,
        indexed_in_order(appended(entries, entries.len(), entry)),
{
    let a = appended(entries, entries.len(), entry);
    assert(a =~= entries.take(entry.index - 1).push(entry));
    assert(a.len() == entry.index);
    assert forall|i: u64| 1 <= i < entry.index implies #[trigger] entry_at(a, i) == entry_at(entries, i) by {
        assert(a[i - 1] == entries[i - 1]);
    }
    assert forall|i: int| 0 <= i < a.len() implies #[trigger] a[i].index == i + 1 by {
        if i < a.len() - 1 {
            assert(a[i] == entries[i]);
        }
    }
}

/// Appending keeps a log numbered without gaps: when a log's entries sit at
/// their indices and its last index is its last entry's, appending an entry
/// at an index from 1 up to one past the last gives the entry back at its
/// index and leaves every entry at its index.
pub proof fn lemma_append_keeps_numbering(entries: Seq<LogEntryView>, last_index: nat, entry: LogEntryView)
    requires
        indexed_in_order(entries),
        last_index == last_index_of(entries),
        1 <= entry.index <= last_index + 1,
    ensures
        appended(entries, last_index, entry) == appended(entries, entries.len(), entry),
        entry_at(appended(entries, last_index, entry), entry.index) == Some(entry),
        last_index_of(appended(entries, last_index, entry)) == entry.index,
        indexed_in_order(appended(entries, last_index, entry)),
{
    if entries.len() > 0 {
        assert(entries[entries.len() - 1].index == entries.len());
    }
    assert(last_index == entries.len());
    lemma_append_then_read(entries, entry);
}

/// The entry created next follows the last one: in a log whose entries sit
/// at their indices, appending it adds exactly that entry at the end.
pub proof fn lemma_next_entry_extends(entries: Seq<LogEntryView>, entry: LogEntryView)
    requires
        indexed_in_order(entries),
        entry.index == entries.len() + 1,
    ensures
        appended(entries, entries.len(), entry) == entries.push(entry),
        indexed_in_order(entries.push(entry)),
{
    lemma_append_then_read(entries, entry);
}

/// The operation log of a node.
pub trait OperationLog {
    /// The entries, in order.
    spec fn entries_view(&self) -> Seq<LogEntryView>;

    /// The index of the last appended entry: the entry created next follows
    /// it.
    spec fn last_index_view(&self) -> nat;

    /// The log's own consistency.
    spec fn inv(&self) -> bool;

    /// In a consistent log the last appended index is the last entry's index
    /// (0 for an empty log).
    proof fn lemma_last_index(&self)
        requires
            self.inv(),
        ensures
            self.last_index_view() == last_index_of(self.entries_view()),
    ;

    /// Creates the entry that follows the last one, in the given term; the
    /// log does not change.
    fn create_next_entry(&mut self, term: u64, entry_content: EntryContent) -> (e: LogEntry)
        requires
            old(self).inv(),
            old(self).last_index_view() < u64::MAX,
        ensures
            final(self).inv(),
            final(self).entries_view() == old(self).entries_view(),
            final(self).last_index_view() == old(self).last_index_view(),
            e.index == old(self).last_index_view() + 1,
            e.index == last_index_of(old(self).entries_view()) + 1,
            e.term == term,
            e.entry_content@ == entry_content@,
    ;

    /// Appends an entry (see `appended`); the entry becomes the last
    /// appended. The index is at least 1, and entries are replaced only in a
    /// log that holds an entry at every position up to its last index.
    fn append_entry(&mut self, entry: LogEntry) -> (r: Result<(), RaftError>)
        requires
            old(self).inv(),
            1 <= entry.index,
            entry.index <= old(self).last_index_view() ==> old(self).entries_view().len()
                == old(self).last_index_view(),
        ensures
            final(self).inv(),
            r is Ok ==> final(self).entries_view() == appended(
                old(self).entries_view(),
                old(self).last_index_view(),
                entry@,
            ),
            r is Ok ==> final(self).last_index_view() == entry.index,
    ;

    /// The entry at the given position, if any.
    fn entry(&self, index: u64) -> (r: Option<LogEntry>)
        requires
            self.inv(),
        ensures
            match r {
                Some(e) => entry_at(self.entries_view(), index) == Some(e@),
                None => entry_at(self.entries_view(), index) is None,
            },
    ;

    /// The index of the last entry, 0 for an empty log.
    fn last_entry_index(&self) -> (r: u64)
        requires
            self.inv(),
        ensures
            r == last_index_of(self.entries_view()),
    ;

    /// The term of the last entry, 0 for an empty log.
    fn last_entry_term(&self) -> (r: u64)
        requires
            self.inv(),
        ensures
            r == last_term_of(self.entries_view()),
    ;
}

/// An operation log held in memory. Appending a configuration entry adds its
/// nodes to the cluster configuration that the log keeps. That configuration
/// is the node's only membership: the node reads its peers and quorum from
/// it (`cluster`) and changes it through the log (`cluster_mut`); a
/// configuration cloned before it was handed to the log is a separate
/// snapshot that the log does not update.
#[derive(Clone, Debug)]
pub struct MemoryOperationLog {
    cluster: ClusterConfiguration,
    last_index: u64,
    entries: Vec<LogEntry>,
}

impl MemoryOperationLog {
    /// The cluster configuration that the log keeps.
    pub closed spec fn cluster_view(&self) -> Set<u64> {
        self.cluster@
    }

    /// The entries of the log.
    pub closed spec fn log_view(&self) -> Seq<LogEntryView> {
        views_of(self.entries@)
    }

    /// The index of the last appended entry.
    pub closed spec fn last_view(&self) -> nat {
        self.last_index as nat
    }

    /// The log never holds more entries than its last index, and the last
    /// index is the last entry's index (0 when the log is empty).
    pub closed spec fn log_inv(&self) -> bool {
        &&& self.entries@.len() <= self.last_index
        &&& self.last_index == last_index_of(self.log_view())
    }

    /// Creates an empty log that keeps the given cluster configuration.
    pub fn new(cluster: ClusterConfiguration) -> (log: MemoryOperationLog)
        ensures
            log.inv(),
            log.entries_view() == Seq::<LogEntryView>::empty(),
            log.last_index_view() == 0,
            log.cluster_view() == cluster@,
    {
        let log = MemoryOperationLog { cluster, entries: Vec::new(), last_index: 0 };
        assert(log.entries_view() =~= Seq::<LogEntryView>::empty());
        log
    }

    /// The cluster configuration that the log keeps.
    pub fn cluster(&self) -> (c: &ClusterConfiguration)
        ensures
            c@ == self.cluster_view(),
    {
        &self.cluster
    }

    /// The cluster configuration that the log keeps, to change it; the
    /// entries stay as they are.
    pub fn cluster_mut(&mut self) -> (c: &mut ClusterConfiguration)
        ensures
            c@ == old(self).cluster_view(),
            final(self).cluster_view() == final(c)@,
            final(self).log_view() == old(self).log_view(),
            final(self).last_view() == old(self).last_view(),
            final(self).log_inv() == old(self).log_inv(),
    {
        &mut self.cluster
    }
}

impl OperationLog for MemoryOperationLog {
    open spec fn entries_view(&self) -> Seq<LogEntryView> {
        self.log_view()
    }

    open spec fn last_index_view(&self) -> nat {
        self.last_view()
    }

    open spec fn inv(&self) -> bool {
        self.log_inv()
    }

    proof fn lemma_last_index(&self) {
    }

    fn create_next_entry(&mut self, term: u64, entry_content: EntryContent) -> (e: LogEntry)
        ensures
            final(self).cluster_view() == old(self).cluster_view(),
    {
        LogEntry { index: self.last_index + 1, term, entry_content }
    }

    fn append_entry(&mut self, entry: LogEntry) -> (r: Result<(), RaftError>)
        ensures
            r is Ok,
            match entry.entry_content {
                EntryContent::AddServer(c) => final(self).cluster_view()
                    == old(self).cluster_view().union(c.new_cluster_configuration@.to_set()),
                EntryContent::Data(_) => final(self).cluster_view() == old(self).cluster_view(),
            },
    {
        let ghost old_entries = self.entries_view();
        let ghost old_len = old_entries.len() as int;
        let ghost old_last = self.last_index as int;
        while self.last_index >= entry.index
            invariant
                1 <= entry.index,
                entry.index <= old_last ==> old_len == old_last,
                old_last >= entry.index ==> entry.index - 1 <= self.last_index,
                self.last_index <= old_last,
                old_last >= entry.index ==> self.last_index == self.entries@.len(),
                old_last < entry.index ==> self.last_index == old_last && self.entries_view()
                    == old_entries,
                old_last >= entry.index ==> self.entries_view() == old_entries.take(entry.index - 1)
                    + old_entries.skip(entry.index - 1 + (old_len - self.last_index)),
                self.cluster@ == old(self).cluster@,
                old_entries == old(self).entries_view(),
                old_len == old_entries.len(),
                old_last == old(self).last_index,
            decreases self.last_index,
        {
            let len = self.entries.len();
            assert(entry.index <= len);
            let vec_idx = (entry.index - 1) as usize;
            let ghost before = self.entries@;
            self.entries.remove(vec_idx);
            self.last_index = self.last_index - 1;
            proof {
                let p = entry.index - 1;
                let k = old_len - self.last_index;
                assert(self.entries_view() =~= views_of(before).remove(p));
                assert(views_of(before) == old_entries.take(p) + old_entries.skip(p + k - 1));
            }
            assert(self.entries_view() =~= old_entries.take(entry.index - 1) + old_entries.skip(
                entry.index - 1 + (old_len - self.last_index),
            ));
        }
        proof {
            if old_last >= entry.index {
                assert(self.entries_view() =~= old_entries.take(entry.index - 1));
            }
        }
        let ghost entry_view = entry@;
        self.entries.push(entry.duplicate());
        assert(views_of(self.entries@) =~= appended(old_entries, old_last as nat, entry_view));
        let ghost pushed = self.entries@;
        let new_index = entry.index;
        if let EntryContent::AddServer(add_server_request) = entry.entry_content {
            let ids = add_server_request.new_cluster_configuration;
            let mut i: usize = 0;
            while i < ids.len()
                invariant
                    i <= ids.len(),
                    self.cluster@ == old(self).cluster@.union(ids@.subrange(0, i as int).to_set()),
                    self.entries@ == pushed,
                decreases ids.len() - i,
            {
                proof {
                    assert(ids@.subrange(0, i as int + 1) =~= ids@.subrange(0, i as int).push(ids@[i as int]));
                    ids@.subrange(0, i as int).lemma_push_to_set_commute(ids@[i as int]);
                }
                self.cluster.add_peer(ids[i]);
                i = i + 1;
                assert(self.cluster@ =~= old(self).cluster@.union(ids@.subrange(0, i as int).to_set()));
            }
            assert(ids@.subrange(0, ids.len() as int) =~= ids@);
        } else {
        }
        self.last_index = new_index;
        assert(self.log_view() =~= views_of(pushed));
        Ok(())
    }

    fn entry(&self, index: u64) -> (r: Option<LogEntry>) {
        let n = self.entries.len();
        if index == 0 || index > n as u64 {
            return None;
        }
        let idx = (index - 1) as usize;
        assert(views_of(self.entries@)[idx as int] == self.entries@[idx as int]@);
        Some(self.entries[idx].duplicate())
    }

    fn last_entry_index(&self) -> (r: u64) {
        let n = self.entries.len();
        if n == 0 {
            0
        } else {
            assert(views_of(self.entries@)[n - 1] == self.entries@[n - 1]@);
            self.entries[n - 1].index
        }
    }

    fn last_entry_term(&self) -> (r: u64) {
        let n = self.entries.len();
        if n == 0 {
            0
        } else {
            assert(views_of(self.entries@)[n - 1] == self.entries@[n - 1]@);
            self.entries[n - 1].term
        }
    }
}

} // verus!
