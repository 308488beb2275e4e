//! A plain log storage: entries appended in order, read back at the end.

use vstd::prelude::*;

verus! {

/// A new server for the cluster.
#[derive(Clone, Copy, Debug, PartialEq, Eq, Structural, Hash)]
pub struct AddServerEntryContent {
    /// The new server.
    pub new_server: u64,
}

/// Client data.
#[derive(Clone, Debug, PartialEq, Eq, Hash)]
pub struct DataEntryDetails {
    /// The serialized data.
    pub bytes: Vec<u8>,
}

/// What an entry carries.
#[derive(Clone, Debug, PartialEq, Eq, Hash)]
pub enum EntryType {
    /// A new server.
    AddServer(AddServerEntryContent),
    /// Client data.
    Data(DataEntryDetails),
}

/// A stored entry.
#[derive(Clone, Debug, PartialEq, Eq, Hash)]
pub struct Entry {
    /// The entry's index.
    pub index: u64,
    /// The entry's term.
    pub term: u64,
    /// What the entry carries.
    pub entry_type: EntryType,
}

/// Stores log entries.
pub trait LogStorage {
    /// The (index, term) of each stored entry, in order.
    spec fn positions(&self) -> Seq<(u64, u64)>;

    /// Appends an entry at the end.
    fn append_entry(&mut self, entry: Entry)
        ensures
            final(self).positions() == old(self).positions().push((entry.index, entry.term)),
    ;

    /// The index of the last entry, 0 when there is none.
    fn get_last_entry_index(&self) -> (r: u64)
        ensures
            r == (if self.positions().len() == 0 {
                0
            } else {
                self.positions().last().0
            }),
    ;

    /// The term of the last entry, 0 when there is none.
    fn get_last_entry_term(&self) -> (r: u64)
        ensures
            r == (if self.positions().len() == 0 {
                0
            } else {
                self.positions().last().1
            }),
    ;
}

/// Log storage in memory.
#[derive(Clone, Debug)]
pub struct MemoryLogStorage {
    entries: Vec<Entry>,
}

impl MemoryLogStorage {
    /// The (index, term) of each stored entry.
    pub closed spec fn positions_view(&self) -> Seq<(u64, u64)> {
        Seq::new(self.entries@.len(), |i: int| (self.entries@[i].index, self.entries@[i].term))
    }

    /// An empty storage.
    pub fn new() -> (s: MemoryLogStorage)
        ensures
            s.positions_view() == Seq::<(u64, u64)>::empty(),
    {
        let s = MemoryLogStorage { entries: Vec::new() };
        assert(s.positions_view() =~= Seq::<(u64, u64)>::empty());
        s
    }
}

impl LogStorage for MemoryLogStorage {
    open spec fn positions(&self) -> Seq<(u64, u64)> {
        self.positions_view()
    }

    fn append_entry(&mut self, entry: Entry) {
        let ghost old_positions = self.positions_view();
        let ghost position = (entry.index, entry.term);
        self.entries.push(entry);
        assert(self.positions_view() =~= old_positions.push(position));
    }

    fn get_last_entry_index(&self) -> (r: u64) {
        let n = self.entries.len();
        if n == 0 {
            return 0;
        }
        assert(self.positions_view()[n - 1] == (self.entries@[n - 1].index, self.entries@[n - 1].term));
        self.entries[n - 1].index
    }

    fn get_last_entry_term(&self) -> (r: u64) {
        let n = self.entries.len();
        if n == 0 {
            return 0;
        }
        assert(self.positions_view()[n - 1] == (self.entries@[n - 1].index, self.entries@[n - 1].term));
        self.entries[n - 1].term
    }
}

} // verus!
