//! A tree as seen from one port: the tree id carries the root port number.
use vstd::prelude::*;

use crate::config::{PathLength, PortNo};
use crate::name::{Name, TreeID};
use crate::routing_table_entry::RoutingTableEntry;
use crate::utility::{port_mask_value, PortNumber};

verus! {

#[derive(Debug)]
pub struct PortTree {
    port_tree_id: TreeID,
    root_port_no: PortNo,
    in_port_no: PortNo,
    hops: PathLength,
    entry: RoutingTableEntry,
}

impl PortTree {
    pub closed spec fn spec_port_tree_id(&self) -> TreeID {
        self.port_tree_id
    }

    pub closed spec fn spec_root_port_no(&self) -> PortNo {
        self.root_port_no
    }

    pub closed spec fn spec_in_port_no(&self) -> PortNo {
        self.in_port_no
    }

    pub closed spec fn spec_hops(&self) -> PathLength {
        self.hops
    }

    pub closed spec fn spec_entry(&self) -> RoutingTableEntry {
        self.entry
    }

    /// The port tree's root port is the one its tree id records; its entry
    /// is a default entry for the tree with port 0 as a child.
    pub fn new(port_tree_id: &TreeID, in_port_no: PortNo, hops: PathLength) -> (t: PortTree)
        ensures
            t.spec_port_tree_id() == *port_tree_id,
            t.spec_root_port_no() == PortNo(port_tree_id.spec_uuid().spec_port_byte()),
            t.spec_in_port_no() == in_port_no,
            t.spec_hops() == hops,
            t.spec_entry().spec_uuid() == port_tree_id.spec_uuid(),
            t.spec_entry().spec_inuse() == false,
            t.spec_entry().spec_parent() == PortNo(0),
            t.spec_entry().spec_mask() == 1u16,
            t.spec_entry().spec_may_send() == true,
    {
        let root_port_no = port_tree_id._get_port_no();
        let mut entry = RoutingTableEntry::default();
        entry.set_tree_id(port_tree_id);
        entry.add_child(PortNumber::new0());
        assert(port_mask_value(0) == 1u16 << 0u16);
        assert(0u16 | (1u16 << 0u16) == 1u16) by (bit_vector);
        PortTree { port_tree_id: port_tree_id.clone(), root_port_no, in_port_no, hops, entry }
    }

    pub fn get_port_tree_id(&self) -> (t: TreeID)
        ensures
            t == self.spec_port_tree_id(),
    {
        self.port_tree_id.clone()
    }

    pub fn get_root_port_no(&self) -> (p: PortNo)
        ensures
            p == self.spec_root_port_no(),
    {
        self.root_port_no
    }

    pub fn get_in_port_no(&self) -> (p: PortNo)
        ensures
            p == self.spec_in_port_no(),
    {
        self.in_port_no
    }

    pub fn _get_hops(&self) -> (h: &PathLength)
        ensures
            *h == self.spec_hops(),
    {
        &self.hops
    }

    pub fn get_entry(&self) -> (e: RoutingTableEntry)
        ensures
            e == self.spec_entry(),
    {
        self.entry
    }

    pub fn _has_child(&self, child: PortNumber) -> (b: bool)
        ensures
            b == self.spec_entry().spec_has_child(child.port_no.0),
    {
        self.entry.has_child(child)
    }

    pub fn set_entry(&mut self, new_entry: RoutingTableEntry)
        ensures
            final(self).spec_entry() == new_entry,
            final(self).spec_port_tree_id() == old(self).spec_port_tree_id(),
            final(self).spec_root_port_no() == old(self).spec_root_port_no(),
            final(self).spec_in_port_no() == old(self).spec_in_port_no(),
            final(self).spec_hops() == old(self).spec_hops(),
    {
        self.entry = new_entry;
    }

    pub fn add_child(&mut self, child: PortNumber) -> (e: RoutingTableEntry)
        ensures
            old(self).spec_entry().with_mask(final(self).spec_entry(),
                old(self).spec_entry().spec_mask() | port_mask_value(child.port_no.0)),
            e == final(self).spec_entry(),
            final(self).spec_port_tree_id() == old(self).spec_port_tree_id(),
            final(self).spec_root_port_no() == old(self).spec_root_port_no(),
            final(self).spec_in_port_no() == old(self).spec_in_port_no(),
            final(self).spec_hops() == old(self).spec_hops(),
    {
        self.entry.add_child(child)
    }

    pub fn remove_child(&mut self, child: PortNumber) -> (e: RoutingTableEntry)
        ensures
            old(self).spec_entry().with_mask(final(self).spec_entry(),
                old(self).spec_entry().spec_mask() & !port_mask_value(child.port_no.0)),
            e == final(self).spec_entry(),
            final(self).spec_port_tree_id() == old(self).spec_port_tree_id(),
            final(self).spec_root_port_no() == old(self).spec_root_port_no(),
            final(self).spec_in_port_no() == old(self).spec_in_port_no(),
            final(self).spec_hops() == old(self).spec_hops(),
    {
        self.entry.remove_child(child)
    }

    pub fn set_parent(&mut self, new_parent: PortNumber) -> (e: RoutingTableEntry)
        ensures
            final(self).spec_entry().is(old(self).spec_entry().spec_uuid(), old(self).spec_entry().spec_inuse(),
                new_parent.port_no, old(self).spec_entry().spec_mask(), old(self).spec_entry().spec_may_send()),
            e == final(self).spec_entry(),
            final(self).spec_port_tree_id() == old(self).spec_port_tree_id(),
            final(self).spec_root_port_no() == old(self).spec_root_port_no(),
            final(self).spec_in_port_no() == old(self).spec_in_port_no(),
            final(self).spec_hops() == old(self).spec_hops(),
    {
        self.entry.set_parent(new_parent)
    }

    /// Turns a child into the parent: removes it as a child and makes it the parent port.
    pub fn _make_child_parent(&mut self, child: PortNumber) -> (e: RoutingTableEntry)
        ensures
            final(self).spec_entry().is(old(self).spec_entry().spec_uuid(), old(self).spec_entry().spec_inuse(),
                child.port_no, old(self).spec_entry().spec_mask() & !port_mask_value(child.port_no.0),
                old(self).spec_entry().spec_may_send()),
            e == final(self).spec_entry(),
            final(self).spec_port_tree_id() == old(self).spec_port_tree_id(),
    {
        self.remove_child(child);
        self.set_parent(child)
    }
}

impl Clone for PortTree {
    fn clone(&self) -> (r: Self)
        ensures
            r == *self,
    {
        PortTree {
            port_tree_id: self.port_tree_id.clone(),
            root_port_no: self.root_port_no,
            in_port_no: self.in_port_no,
            hops: self.hops,
            entry: self.entry,
        }
    }
}

} // verus!
