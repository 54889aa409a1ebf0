//! A tree a cell takes part in, with its routing entry and GVM equation.
use vstd::prelude::*;

use crate::gvm_equation::{same_variables, GvmEquation};
use crate::name::{Name, TreeID};
use crate::routing_table_entry::RoutingTableEntry;
use crate::utility::{port_mask_value, PortNumber};
use crate::uuid_ec::Uuid;

verus! {

#[derive(Debug)]
pub struct Tree {
    port_tree_id: TreeID,
    base_tree_id: TreeID,
    parent_tree_id: TreeID,
    stacked_tree_ids: Vec<TreeID>,
    table_entry: RoutingTableEntry,
    gvm_eqn: GvmEquation,
}

impl Tree {
    pub closed spec fn spec_port_tree_id(&self) -> TreeID {
        self.port_tree_id
    }

    pub closed spec fn spec_base_tree_id(&self) -> TreeID {
        self.base_tree_id
    }

    pub closed spec fn spec_parent_tree_id(&self) -> TreeID {
        self.parent_tree_id
    }

    pub closed spec fn spec_stacked_tree_ids(&self) -> Seq<TreeID> {
        self.stacked_tree_ids@
    }

    pub closed spec fn spec_entry(&self) -> RoutingTableEntry {
        self.table_entry
    }

    pub closed spec fn spec_gvm_eqn(&self) -> GvmEquation {
        self.gvm_eqn
    }

    pub open spec fn spec_uuid(&self) -> Uuid {
        self.spec_port_tree_id().spec_uuid()
    }

    /// Two trees that agree in everything but their equation's variable list.
    pub open spec fn same_as(&self, other: &Tree) -> bool {
        &&& self.spec_port_tree_id() == other.spec_port_tree_id()
        &&& self.spec_base_tree_id() == other.spec_base_tree_id()
        &&& self.spec_parent_tree_id() == other.spec_parent_tree_id()
        &&& self.spec_stacked_tree_ids() == other.spec_stacked_tree_ids()
        &&& self.spec_entry() == other.spec_entry()
        &&& self.spec_gvm_eqn().spec_recv() == other.spec_gvm_eqn().spec_recv()
        &&& self.spec_gvm_eqn().spec_send() == other.spec_gvm_eqn().spec_send()
        &&& self.spec_gvm_eqn().spec_save() == other.spec_gvm_eqn().spec_save()
        &&& self.spec_gvm_eqn().spec_xtnd() == other.spec_gvm_eqn().spec_xtnd()
        &&& same_variables(self.spec_gvm_eqn().spec_variables(), other.spec_gvm_eqn().spec_variables())
    }

    /// The same tree with another routing entry.
    pub open spec fn with_entry(&self, other: &Tree, entry: RoutingTableEntry) -> bool {
        &&& self.spec_port_tree_id() == other.spec_port_tree_id()
        &&& self.spec_base_tree_id() == other.spec_base_tree_id()
        &&& self.spec_parent_tree_id() == other.spec_parent_tree_id()
        &&& self.spec_stacked_tree_ids() == other.spec_stacked_tree_ids()
        &&& other.spec_entry() == entry
        &&& self.spec_gvm_eqn() == other.spec_gvm_eqn()
    }

    pub fn new(tree_id: &TreeID, base_tree_id: &TreeID, parent_tree_id: &TreeID, gvm_eqn: &GvmEquation,
        table_entry: RoutingTableEntry) -> (t: Tree)
        ensures
            t.spec_port_tree_id() == *tree_id,
            t.spec_base_tree_id() == *base_tree_id,
            t.spec_parent_tree_id() == *parent_tree_id,
            t.spec_stacked_tree_ids() == Seq::<TreeID>::empty(),
            t.spec_entry() == table_entry,
            t.spec_gvm_eqn().spec_recv() == gvm_eqn.spec_recv(),
            t.spec_gvm_eqn().spec_send() == gvm_eqn.spec_send(),
            t.spec_gvm_eqn().spec_save() == gvm_eqn.spec_save(),
            t.spec_gvm_eqn().spec_xtnd() == gvm_eqn.spec_xtnd(),
    {
        Tree {
            base_tree_id: base_tree_id.clone(),
            port_tree_id: tree_id.clone(),
            parent_tree_id: parent_tree_id.clone(),
            gvm_eqn: gvm_eqn.clone(),
            table_entry,
            stacked_tree_ids: Vec::new(),
        }
    }

    pub fn get_port_tree_id(&self) -> (t: &TreeID)
        ensures
            *t == self.spec_port_tree_id(),
    {
        &self.port_tree_id
    }

    pub fn get_stacked_tree_ids(&self) -> (v: &Vec<TreeID>)
        ensures
            v@ == self.spec_stacked_tree_ids(),
    {
        &self.stacked_tree_ids
    }

    pub fn get_uuid(&self) -> (u: Uuid)
        ensures
            u == self.spec_uuid(),
    {
        self.port_tree_id.get_uuid()
    }

    pub fn get_table_entry(&self) -> (e: RoutingTableEntry)
        ensures
            e == self.spec_entry(),
    {
        self.table_entry
    }

    pub fn set_table_entry(&mut self, entry: RoutingTableEntry)
        ensures
            old(self).with_entry(&*final(self), entry),
    {
        self.table_entry = entry;
    }

    pub fn get_gvm_eqn(&self) -> (g: &GvmEquation)
        ensures
            *g == self.spec_gvm_eqn(),
    {
        &self.gvm_eqn
    }

    pub fn has_child(&self, child: PortNumber) -> (b: bool)
        ensures
            b == self.spec_entry().spec_has_child(child.port_no.0),
    {
        self.table_entry.has_child(child)
    }

    pub fn add_child(&mut self, child: PortNumber) -> (e: RoutingTableEntry)
        ensures
            old(self).spec_entry().with_mask(final(self).spec_entry(),
                old(self).spec_entry().spec_mask() | port_mask_value(child.port_no.0)),
            old(self).with_entry(&*final(self), final(self).spec_entry()),
            e == final(self).spec_entry(),
    {
        self.table_entry.add_child(child)
    }

    pub fn remove_child(&mut self, child: PortNumber) -> (e: RoutingTableEntry)
        ensures
            old(self).spec_entry().with_mask(final(self).spec_entry(),
                old(self).spec_entry().spec_mask() & !port_mask_value(child.port_no.0)),
            old(self).with_entry(&*final(self), final(self).spec_entry()),
            e == final(self).spec_entry(),
    {
        self.table_entry.remove_child(child)
    }

    /// Replaces one child port by another.
    pub fn swap_children(&mut self, old_child: PortNumber, new_child: PortNumber)
        ensures
            old(self).spec_entry().with_mask(final(self).spec_entry(),
                (old(self).spec_entry().spec_mask() & !port_mask_value(old_child.port_no.0))
                    | port_mask_value(new_child.port_no.0)),
            old(self).with_entry(&*final(self), final(self).spec_entry()),
    {
        self.remove_child(old_child);
        self.add_child(new_child);
    }
}

impl Clone for Tree {
    fn clone(&self) -> (r: Self)
        ensures
            r.same_as(self),
    {
        let mut ids: Vec<TreeID> = Vec::new();
        let mut i: usize = 0;
        while i < self.stacked_tree_ids.len()
            invariant
                i <= self.stacked_tree_ids@.len(),
                ids@ == self.stacked_tree_ids@.take(i as int),
            decreases self.stacked_tree_ids@.len() - i,
        {
            ids.push(self.stacked_tree_ids[i].clone());
            assert(ids@ =~= self.stacked_tree_ids@.take(i + 1));
            i = i + 1;
        }
        assert(self.stacked_tree_ids@.take(self.stacked_tree_ids@.len() as int) =~= self.stacked_tree_ids@);
        Tree {
            port_tree_id: self.port_tree_id.clone(),
            base_tree_id: self.base_tree_id.clone(),
            parent_tree_id: self.parent_tree_id.clone(),
            stacked_tree_ids: ids,
            table_entry: self.table_entry,
            gvm_eqn: self.gvm_eqn.clone(),
        }
    }
}

} // verus!
