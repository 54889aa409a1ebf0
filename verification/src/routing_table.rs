//! A cell's routing table: one entry per tree, kept in the order the trees were added.
use vstd::prelude::*;

use crate::name::{CellID, Name};
use crate::routing_table_entry::RoutingTableEntry;
use crate::uuid_ec::Uuid;

verus! {

#[derive(Debug)]
pub enum RoutingTableError {
    Uuid { func_name: &'static str, uuid: Uuid, cell_id: CellID },
}

/// No two entries of the table are for the same tree.
pub open spec fn distinct_uuids(s: Seq<RoutingTableEntry>) -> bool {
    forall|i: int, j: int| 0 <= i < j < s.len() ==> s[i].spec_uuid() != s[j].spec_uuid()
}

/// Whether some entry is for the tree.
pub open spec fn has_entry(s: Seq<RoutingTableEntry>, uuid: Uuid) -> bool {
    exists|i: int| 0 <= i < s.len() && (#[trigger] s[i]).spec_uuid() == uuid
}

#[derive(Debug)]
pub struct RoutingTable {
    id: CellID,
    entries: Vec<RoutingTableEntry>,
    connected_ports: Vec<u8>,
}

impl RoutingTable {
    pub closed spec fn spec_entries(&self) -> Seq<RoutingTableEntry> {
        self.entries@
    }

    pub closed spec fn spec_cell_id(&self) -> CellID {
        self.id
    }

    pub open spec fn wf(&self) -> bool {
        distinct_uuids(self.spec_entries())
    }

    pub fn new(id: CellID) -> (r: Result<RoutingTable, RoutingTableError>)
        ensures
            r matches Ok(t) && t.wf() && t.spec_entries() == Seq::<RoutingTableEntry>::empty()
                && t.spec_cell_id() == id,
    {
        Ok(RoutingTable { id, entries: Vec::new(), connected_ports: Vec::new() })
    }

    fn find(&self, uuid: Uuid) -> (r: Option<usize>)
        ensures
            r matches Some(i) ==> i < self.spec_entries().len() && self.spec_entries()[i as int].spec_uuid() == uuid,
            r is None ==> !has_entry(self.spec_entries(), uuid),
    {
        let mut i: usize = 0;
        while i < self.entries.len()
            invariant
                i <= self.entries@.len(),
                forall|k: int| 0 <= k < i ==> (#[trigger] self.entries@[k]).spec_uuid() != uuid,
            decreases self.entries@.len() - i,
        {
            if self.entries[i].get_uuid() == uuid {
                return Some(i);
            }
            i = i + 1;
        }
        None
    }

    /// The entry for the tree, or an error naming the tree and the cell.
    pub fn get_entry(&self, uuid: Uuid) -> (r: Result<RoutingTableEntry, RoutingTableError>)
        requires
            self.wf(),
        ensures
            has_entry(self.spec_entries(), uuid) ==> (r matches Ok(e) && exists|i: int|
                0 <= i < self.spec_entries().len() && self.spec_entries()[i] == e && e.spec_uuid() == uuid),
            !has_entry(self.spec_entries(), uuid) ==> (r matches Err(RoutingTableError::Uuid {
                func_name,
                uuid: u,
                cell_id,
            }) && func_name == "get_entry" && u == uuid && cell_id == self.spec_cell_id()),
    {
        match self.find(uuid) {
            Some(i) => Ok(self.entries[i]),
            None => Err(RoutingTableError::Uuid { func_name: "get_entry", cell_id: self.id.clone(), uuid }),
        }
    }

    /// Replaces the entry for the entry's tree, or adds it at the end.
    pub fn set_entry(&mut self, entry: RoutingTableEntry)
        requires
            old(self).wf(),
        ensures
            final(self).wf(),
            final(self).spec_cell_id() == old(self).spec_cell_id(),
            has_entry(old(self).spec_entries(), entry.spec_uuid()) ==> exists|i: int|
                0 <= i < old(self).spec_entries().len() && old(self).spec_entries()[i].spec_uuid()
                    == entry.spec_uuid() && final(self).spec_entries() == old(self).spec_entries().update(i, entry),
            !has_entry(old(self).spec_entries(), entry.spec_uuid()) ==> final(self).spec_entries()
                == old(self).spec_entries().push(entry),
    {
        match self.find(entry.get_uuid()) {
            Some(i) => {
                self.entries.set(i, entry);
                assert(self.entries@ == old(self).entries@.update(i as int, entry));
            },
            None => {
                self.entries.push(entry);
            },
        }
    }

    /// The entries in the order their trees were added.
    pub fn get_entries(&self) -> (v: &Vec<RoutingTableEntry>)
        ensures
            v@ == self.spec_entries(),
    {
        &self.entries
    }
}

/// After an entry is set, looking up its tree finds exactly that entry, and
/// every other tree's entry stays where it was, unchanged.
pub proof fn lemma_get_after_set(before: Seq<RoutingTableEntry>, after: Seq<RoutingTableEntry>,
    entry: RoutingTableEntry)
    requires
        distinct_uuids(before),
        has_entry(before, entry.spec_uuid()) ==> exists|i: int|
            0 <= i < before.len() && before[i].spec_uuid() == entry.spec_uuid() && after == before.update(i, entry),
        !has_entry(before, entry.spec_uuid()) ==> after == before.push(entry),
    ensures
        has_entry(after, entry.spec_uuid()),
        forall|i: int| 0 <= i < after.len() && after[i].spec_uuid() == entry.spec_uuid() ==> after[i] == entry,
        forall|j: int|
            0 <= j < before.len() && before[j].spec_uuid() != entry.spec_uuid() ==> after[j] == before[j],
{
    if has_entry(before, entry.spec_uuid()) {
        let i = choose|i: int|
            0 <= i < before.len() && before[i].spec_uuid() == entry.spec_uuid() && after == before.update(i, entry);
        assert(after[i] == entry);
        assert forall|k: int| 0 <= k < after.len() && after[k].spec_uuid() == entry.spec_uuid() implies after[k]
            == entry by {
            if k != i {
                assert(before[k].spec_uuid() == before[i].spec_uuid());
            }
        }
    } else {
        assert(after[before.len() as int] == entry);
        assert forall|i: int| 0 <= i < after.len() && after[i].spec_uuid() == entry.spec_uuid() implies after[i]
            == entry by {
            if i < before.len() {
                assert(before[i].spec_uuid() == entry.spec_uuid());
                assert(has_entry(before, entry.spec_uuid()));
            }
        }
    }
}

} // verus!
