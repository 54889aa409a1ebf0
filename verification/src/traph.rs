//! A traph: everything a cell knows about one black tree, the port trees
//! and stacked trees built on it, and the state of each of its ports.
use vstd::prelude::*;

use crate::config::{PathLength, PortNo, MAX_PORTS};
use crate::gvm_equation::{GvmEquation, GvmVariable, GvmVariableType};
use crate::name::{CellID, Name, TreeID};
use crate::port_tree::PortTree;
use crate::routing_table_entry::RoutingTableEntry;
use crate::text::{decimal, decimal_string};
use crate::traph_element::TraphElement;
use crate::tree::Tree;
use crate::utility::{port_bit, port_mask_value, Path, PortNumber, S};
use crate::uuid_ec::Uuid;

verus! {

/// How a port relates to a tree.
#[derive(Debug, Copy, Clone, PartialEq, Eq, Structural)]
pub enum PortState {
    Unknown,
    Parent,
    Child,
    Pruned,
    Broken,
}

/// How a connected port relates to a tree, as messages report it.
#[derive(Debug, Copy, Clone, PartialEq, Eq, Structural)]
pub enum PortStatus {
    Parent,
    Child,
    Pruned,
    Broken,
}

impl PortStatus {
    /// The port state this status records.
    pub fn to_state(self) -> (s: PortState)
        ensures
            s == match self {
                PortStatus::Parent => PortState::Parent,
                PortStatus::Child => PortState::Child,
                PortStatus::Pruned => PortState::Pruned,
                PortStatus::Broken => PortState::Broken,
            },
    {
        match self {
            PortStatus::Parent => PortState::Parent,
            PortStatus::Child => PortState::Child,
            PortStatus::Pruned => PortState::Pruned,
            PortStatus::Broken => PortState::Broken,
        }
    }
}

#[derive(Debug)]
pub enum TraphError {
    Chain { func_name: &'static str, comment: &'static str },
    Gvm { func_name: &'static str, var_name: String },
    ParentElement { func_name: &'static str, cell_id: CellID, tree_id: TreeID },
    PortElement { func_name: &'static str, cell_id: CellID, port_no: u8 },
    Tree { func_name: &'static str, cell_id: CellID, tree_uuid: Uuid },
}

/// Adding or removing a child port.
#[derive(Debug, Copy, Clone, PartialEq, Eq, Structural)]
pub enum ChildUpdate {
    Add,
    Remove,
}

/// The mask after adding or removing the child port.
pub open spec fn updated_mask(op: ChildUpdate, mask: u16, child: u8) -> u16 {
    match op {
        ChildUpdate::Add => mask | port_mask_value(child),
        ChildUpdate::Remove => mask & !port_mask_value(child),
    }
}

/// The identity of a tree id: its name and UUID.
pub open spec fn key(t: TreeID) -> (Seq<char>, Uuid) {
    (t.spec_name(), t.spec_uuid())
}

/// The port trees' ids are distinct.
pub open spec fn distinct_port_trees(s: Seq<PortTree>) -> bool {
    forall|i: int, j: int|
        0 <= i < j < s.len() ==> key(s[i].spec_port_tree_id()) != key(s[j].spec_port_tree_id())
}

/// The stacked trees' keys are distinct.
pub open spec fn distinct_keys(s: Seq<(Uuid, Tree)>) -> bool {
    forall|i: int, j: int| 0 <= i < j < s.len() ==> s[i].0 != s[j].0
}

/// Whether the port has been tried as a new parent for the tree.
pub open spec fn was_tried(tried: Seq<(TreeID, PortNo)>, k: (Seq<char>, Uuid), port_no: PortNo) -> bool {
    exists|i: int| 0 <= i < tried.len() && key((#[trigger] tried[i]).0) == k && tried[i].1 == port_no
}

/// A port tree with its entry's mask updated and everything else kept.
pub open spec fn port_tree_updated(a: PortTree, b: PortTree, op: ChildUpdate, child: u8) -> bool {
    &&& b.spec_port_tree_id() == a.spec_port_tree_id()
    &&& b.spec_root_port_no() == a.spec_root_port_no()
    &&& b.spec_in_port_no() == a.spec_in_port_no()
    &&& b.spec_hops() == a.spec_hops()
    &&& a.spec_entry().with_mask(b.spec_entry(), updated_mask(op, a.spec_entry().spec_mask(), child))
}

/// A tree with its entry's mask updated and everything else kept.
pub open spec fn tree_updated(a: Tree, b: Tree, op: ChildUpdate, child: u8) -> bool {
    &&& a.with_entry(&b, b.spec_entry())
    &&& a.spec_entry().with_mask(b.spec_entry(), updated_mask(op, a.spec_entry().spec_mask(), child))
}

/// Whether an element may become the new parent: connected, not broken, not
/// on the broken path and not yet tried.
pub open spec fn usable(e: TraphElement, tried: Seq<(TreeID, PortNo)>, rw: (Seq<char>, Uuid), broken_path: Path) -> bool {
    &&& e.spec_is_connected()
    &&& !e.spec_is_broken()
    &&& e.spec_path() != broken_path
    &&& !was_tried(tried, rw, e.spec_port_no())
}

pub open spec fn hops_of(e: TraphElement) -> usize {
    e.spec_hops().0.0
}

/// The candidate with fewer hops, the first one on a tie.
pub open spec fn fewer_hops(a: Option<TraphElement>, b: Option<TraphElement>) -> Option<TraphElement> {
    match (a, b) {
        (None, _) => b,
        (_, None) => a,
        (Some(x), Some(y)) => if hops_of(y) < hops_of(x) {
            b
        } else {
            a
        },
    }
}

#[derive(Debug)]
pub struct Traph {
    cell_id: CellID,
    base_tree_id: TreeID,
    port_tree_id: Option<TreeID>,
    port_trees: Vec<PortTree>,
    stacked_trees: Vec<(Uuid, Tree)>,
    elements: Vec<TraphElement>,
    tried_ports: Vec<(TreeID, PortNo)>,
}

fn same_id(a: &TreeID, b: &TreeID) -> (r: bool)
    ensures
        r == (key(*a) == key(*b)),
{
    a.equals(b)
}

impl Traph {
    pub closed spec fn spec_cell_id(&self) -> CellID {
        self.cell_id
    }

    pub closed spec fn spec_base_tree_id(&self) -> TreeID {
        self.base_tree_id
    }

    pub closed spec fn spec_port_tree_id(&self) -> Option<TreeID> {
        self.port_tree_id
    }

    pub closed spec fn spec_port_trees(&self) -> Seq<PortTree> {
        self.port_trees@
    }

    pub closed spec fn spec_stacked(&self) -> Seq<(Uuid, Tree)> {
        self.stacked_trees@
    }

    pub closed spec fn spec_elements(&self) -> Seq<TraphElement> {
        self.elements@
    }

    pub closed spec fn spec_tried(&self) -> Seq<(TreeID, PortNo)> {
        self.tried_ports@
    }

    pub open spec fn wf(&self) -> bool {
        &&& distinct_port_trees(self.spec_port_trees())
        &&& distinct_keys(self.spec_stacked())
    }

    /// Whether a stacked tree is filed under the UUID.
    pub open spec fn has_stacked(&self, uuid: Uuid) -> bool {
        exists|i: int| 0 <= i < self.spec_stacked().len() && (#[trigger] self.spec_stacked()[i]).0 == uuid
    }

    /// Whether a port tree has the key.
    pub open spec fn has_port_tree(&self, k: (Seq<char>, Uuid)) -> bool {
        exists|i: int|
            0 <= i < self.spec_port_trees().len() && key((#[trigger] self.spec_port_trees()[i]).spec_port_tree_id()) == k
    }

    /// Everything but the port trees is unchanged.
    pub open spec fn same_but_port_trees(&self, other: &Traph) -> bool {
        &&& self.spec_cell_id() == other.spec_cell_id()
        &&& self.spec_base_tree_id() == other.spec_base_tree_id()
        &&& self.spec_port_tree_id() == other.spec_port_tree_id()
        &&& self.spec_stacked() == other.spec_stacked()
        &&& self.spec_elements() == other.spec_elements()
        &&& self.spec_tried() == other.spec_tried()
    }

    /// Everything but the stacked trees is unchanged.
    pub open spec fn same_but_stacked(&self, other: &Traph) -> bool {
        &&& self.spec_cell_id() == other.spec_cell_id()
        &&& self.spec_base_tree_id() == other.spec_base_tree_id()
        &&& self.spec_port_tree_id() == other.spec_port_tree_id()
        &&& self.spec_port_trees() == other.spec_port_trees()
        &&& self.spec_elements() == other.spec_elements()
        &&& self.spec_tried() == other.spec_tried()
    }

    /// Everything but the elements is unchanged.
    pub open spec fn same_but_elements(&self, other: &Traph) -> bool {
        &&& self.spec_cell_id() == other.spec_cell_id()
        &&& self.spec_base_tree_id() == other.spec_base_tree_id()
        &&& self.spec_port_tree_id() == other.spec_port_tree_id()
        &&& self.spec_port_trees() == other.spec_port_trees()
        &&& self.spec_stacked() == other.spec_stacked()
        &&& self.spec_tried() == other.spec_tried()
    }

    /// Everything but the tried ports is unchanged.
    pub open spec fn same_but_tried(&self, other: &Traph) -> bool {
        &&& self.spec_cell_id() == other.spec_cell_id()
        &&& self.spec_base_tree_id() == other.spec_base_tree_id()
        &&& self.spec_port_tree_id() == other.spec_port_tree_id()
        &&& self.spec_port_trees() == other.spec_port_trees()
        &&& self.spec_stacked() == other.spec_stacked()
        &&& self.spec_elements() == other.spec_elements()
    }

    /// The index of the first element whose port is a parent.
    pub open spec fn is_first_parent(&self, i: int) -> bool {
        &&& 0 <= i < self.spec_elements().len()
        &&& self.spec_elements()[i].spec_state() == PortState::Parent
        &&& forall|k: int| 0 <= k < i ==> (#[trigger] self.spec_elements()[k]).spec_state() != PortState::Parent
    }

    /// A traph as `new` makes it: one unconnected element per port and the
    /// black tree as its only stacked tree.
    pub open spec fn is_fresh(&self, cell_id: CellID, no_ports: PortNo, black_tree_id: TreeID) -> bool {
        &&& self.wf()
        &&& self.spec_cell_id() == cell_id
        &&& self.spec_base_tree_id() == black_tree_id
        &&& self.spec_port_tree_id() is None
        &&& self.spec_port_trees().len() == 0
        &&& self.spec_tried().len() == 0
        &&& self.spec_elements().len() == no_ports.0
        &&& forall|k: int|
            0 <= k < no_ports.0 ==> (#[trigger] self.spec_elements()[k]).is(PortNo((k + 1) as u8), false, false,
                PortState::Unknown, PathLength(crate::config::CellQty(0)), Path::spec_new0())
        &&& self.spec_stacked().len() == 1
        &&& self.spec_stacked()[0].0 == black_tree_id.spec_uuid()
        &&& self.spec_stacked()[0].1.spec_port_tree_id() == black_tree_id
        &&& self.spec_stacked()[0].1.spec_base_tree_id() == black_tree_id
        &&& self.spec_stacked()[0].1.spec_parent_tree_id() == black_tree_id
    }

    pub open spec fn has_parent(&self) -> bool {
        exists|i: int|
            0 <= i < self.spec_elements().len() && (#[trigger] self.spec_elements()[i]).spec_state()
                == PortState::Parent
    }

    /// A traph for the black tree with one element for each of ports 1 to
    /// `no_ports`, and the black tree as its only stacked tree.
    pub fn new(cell_id: &CellID, no_ports: PortNo, black_tree_id: &TreeID, gvm_eqn: &GvmEquation) -> (r: Result<Traph, TraphError>)
        requires
            no_ports.0 < 255,
        ensures
            no_ports.0 > MAX_PORTS ==> (r matches Err(TraphError::Chain { func_name, comment }) && func_name == "new"),
            no_ports.0 <= MAX_PORTS ==> (r matches Ok(t) && t.is_fresh(*cell_id, no_ports, *black_tree_id)),
    {
        let mut elements: Vec<TraphElement> = Vec::new();
        let last: u8 = no_ports.0 + 1;
        let mut i: u8 = 1;
        while i < last
            invariant
                1 <= i <= last,
                last == no_ports.0 + 1,
                i <= MAX_PORTS + 1,
                elements@.len() == i - 1,
                forall|k: int|
                    0 <= k < i - 1 ==> (#[trigger] elements@[k]).is(PortNo((k + 1) as u8), false, false,
                        PortState::Unknown, PathLength(crate::config::CellQty(0)), Path::spec_new0()),
            decreases last - i,
        {
            match PortNo(i).make_port_number(PortNo(MAX_PORTS)) {
                Ok(port_number) => {
                    elements.push(TraphElement::default(port_number));
                },
                Err(_) => {
                    return Err(TraphError::Chain { func_name: "new", comment: "" });
                },
            }
            i = i + 1;
        }
        let entry = RoutingTableEntry::default();
        let black_tree = Tree::new(black_tree_id, black_tree_id, black_tree_id, gvm_eqn, entry);
        let mut stacked_trees: Vec<(Uuid, Tree)> = Vec::new();
        stacked_trees.push((black_tree_id.get_uuid(), black_tree));
        Ok(Traph {
            cell_id: cell_id.clone(),
            base_tree_id: black_tree_id.clone(),
            port_tree_id: None,
            port_trees: Vec::new(),
            stacked_trees,
            elements,
            tried_ports: Vec::new(),
        })
    }

    pub fn _get_cell_id(&self) -> (c: &CellID)
        ensures
            *c == self.spec_cell_id(),
    {
        &self.cell_id
    }

    fn find_stacked(&self, uuid: &Uuid) -> (r: Option<usize>)
        ensures
            r matches Some(i) ==> i < self.spec_stacked().len() && self.spec_stacked()[i as int].0 == *uuid,
            r is None ==> !self.has_stacked(*uuid),
    {
        let mut i: usize = 0;
        while i < self.stacked_trees.len()
            invariant
                i <= self.stacked_trees@.len(),
                forall|k: int| 0 <= k < i ==> (#[trigger] self.stacked_trees@[k]).0 != *uuid,
            decreases self.stacked_trees@.len() - i,
        {
            if self.stacked_trees[i].0 == *uuid {
                return Some(i);
            }
            i = i + 1;
        }
        None
    }

    fn find_port_tree(&self, id: &TreeID) -> (r: Option<usize>)
        ensures
            r matches Some(i) ==> i < self.spec_port_trees().len() && key(
                self.spec_port_trees()[i as int].spec_port_tree_id(),
            ) == key(*id),
            r is None ==> !self.has_port_tree(key(*id)),
    {
        let mut i: usize = 0;
        while i < self.port_trees.len()
            invariant
                i <= self.port_trees@.len(),
                forall|k: int|
                    0 <= k < i ==> key((#[trigger] self.port_trees@[k]).spec_port_tree_id()) != key(*id),
            decreases self.port_trees@.len() - i,
        {
            let pid = self.port_trees[i].get_port_tree_id();
            if same_id(&pid, id) {
                return Some(i);
            }
            i = i + 1;
        }
        None
    }

    /// A copy of the stacked tree filed under the UUID.
    pub fn get_tree(&self, tree_uuid: &Uuid) -> (r: Result<Tree, TraphError>)
        ensures
            self.has_stacked(*tree_uuid) ==> (r matches Ok(t) && exists|i: int|
                0 <= i < self.spec_stacked().len() && self.spec_stacked()[i].0 == *tree_uuid
                    && t.same_as(&self.spec_stacked()[i].1)),
            !self.has_stacked(*tree_uuid) ==> (r matches Err(TraphError::Tree { func_name, cell_id, tree_uuid: u })
                && func_name == "get_tree" && cell_id == self.spec_cell_id() && u == *tree_uuid),
    {
        match self.find_stacked(tree_uuid) {
            Some(i) => Ok(self.stacked_trees[i].1.clone()),
            None => Err(TraphError::Tree { cell_id: self.cell_id.clone(), func_name: "get_tree", tree_uuid: *tree_uuid }),
        }
    }

    pub fn get_base_tree_id(&self) -> (t: &TreeID)
        ensures
            *t == self.spec_base_tree_id(),
    {
        &self.base_tree_id
    }

    /// The element of the first port that is a parent.
    pub fn get_parent_element(&self) -> (r: Result<TraphElement, TraphError>)
        ensures
            self.has_parent() ==> (r matches Ok(e) && exists|i: int|
                self.is_first_parent(i) && self.spec_elements()[i] == e),
            !self.has_parent() ==> (r matches Err(TraphError::ParentElement { func_name, cell_id, tree_id })
                && func_name == "get_parent_element" && cell_id == self.spec_cell_id() && tree_id
                == self.spec_base_tree_id()),
    {
        let mut i: usize = 0;
        while i < self.elements.len()
            invariant
                i <= self.elements@.len(),
                forall|k: int| 0 <= k < i ==> (#[trigger] self.elements@[k]).spec_state() != PortState::Parent,
            decreases self.elements@.len() - i,
        {
            if self.elements[i].is_state(PortState::Parent) {
                assert(self.is_first_parent(i as int));
                return Ok(self.elements[i]);
            }
            i = i + 1;
        }
        Err(TraphError::ParentElement {
            cell_id: self.cell_id.clone(),
            func_name: "get_parent_element",
            tree_id: self.base_tree_id.clone(),
        })
    }

    /// The hop count of the parent port.
    pub fn get_hops(&self) -> (r: Result<PathLength, TraphError>)
        ensures
            self.has_parent() ==> (r matches Ok(h) && exists|i: int|
                self.is_first_parent(i) && self.spec_elements()[i].spec_hops() == h),
            !self.has_parent() ==> (r matches Err(TraphError::ParentElement { func_name, cell_id, tree_id })
                && func_name == "get_parent_element"),
    {
        match self.get_parent_element() {
            Ok(element) => Ok(element.get_hops()),
            Err(e) => Err(e),
        }
    }

    /// The parent port's number.
    pub fn get_parent_port(&self) -> (r: Result<PortNo, TraphError>)
        ensures
            self.has_parent() ==> (r matches Ok(p) && exists|i: int|
                self.is_first_parent(i) && self.spec_elements()[i].spec_port_no() == p),
            !self.has_parent() ==> (r matches Err(TraphError::ParentElement { func_name, cell_id, tree_id })
                && func_name == "get_parent_element"),
    {
        match self.get_parent_element() {
            Ok(element) => Ok(element.get_port_no()),
            Err(e) => Err(e),
        }
    }

    /// Files the port tree under its id, replacing one with the same id; the
    /// first port tree added becomes the traph's port tree id, which is returned.
    pub fn add_port_tree(&mut self, port_tree: PortTree) -> (id: TreeID)
        requires
            old(self).wf(),
        ensures
            port_tree_added(*old(self), *final(self), port_tree, id),
    {
        if self.port_tree_id.is_none() {
            self.port_tree_id = Some(port_tree.get_port_tree_id());
        }
        let pid = port_tree.get_port_tree_id();
        match self.find_port_tree(&pid) {
            Some(i) => {
                self.port_trees.set(i, port_tree);
            },
            None => {
                self.port_trees.push(port_tree);
            },
        }
        match &self.port_tree_id {
            Some(id) => id.clone(),
            None => {
                assert(false);
                pid
            },
        }
    }

    /// The elements, one per port.
    pub fn get_elements(&self) -> (v: &Vec<TraphElement>)
        ensures
            v@ == self.spec_elements(),
    {
        &self.elements
    }

    /// Stores the element at the index given by its port number.
    pub fn set_element(&mut self, traph_element: TraphElement)
        requires
            (traph_element.spec_port_no().0 as int) < old(self).spec_elements().len(),
        ensures
            final(self).spec_elements() == old(self).spec_elements().update(
                traph_element.spec_port_no().0 as int,
                traph_element,
            ),
            old(self).same_but_elements(&*final(self)),
    {
        let i = traph_element.get_port_no().0 as usize;
        self.elements.set(i, traph_element);
    }

    /// The first element for the port.
    pub fn get_element(&self, port_no: PortNo) -> (r: Result<TraphElement, TraphError>)
        ensures
            (exists|i: int| 0 <= i < self.spec_elements().len() && (#[trigger] self.spec_elements()[i]).spec_port_no() == port_no)
                ==> (r matches Ok(e) && exists|i: int|
                0 <= i < self.spec_elements().len() && self.spec_elements()[i] == e && e.spec_port_no() == port_no
                    && forall|k: int| 0 <= k < i ==> (#[trigger] self.spec_elements()[k]).spec_port_no() != port_no),
            !(exists|i: int| 0 <= i < self.spec_elements().len() && (#[trigger] self.spec_elements()[i]).spec_port_no() == port_no)
                ==> (r matches Err(TraphError::PortElement { func_name, cell_id, port_no: p }) && func_name == "get_element"
                && cell_id == self.spec_cell_id() && p == port_no.0),
    {
        let mut i: usize = 0;
        while i < self.elements.len()
            invariant
                i <= self.elements@.len(),
                forall|k: int| 0 <= k < i ==> (#[trigger] self.elements@[k]).spec_port_no() != port_no,
            decreases self.elements@.len() - i,
        {
            if self.elements[i].get_port_no() == port_no {
                proof {
                    assert(self.spec_elements()[i as int].spec_port_no() == port_no);
                }
                return Ok(self.elements[i]);
            }
            i = i + 1;
        }
        Err(TraphError::PortElement { func_name: "get_element", cell_id: self.cell_id.clone(), port_no: port_no.0 })
    }

    /// Takes the port tree with the given id out of the traph.
    pub fn own_port_tree(&mut self, port_tree_id: &TreeID) -> (r: Option<PortTree>)
        requires
            old(self).wf(),
        ensures
            final(self).wf(),
            old(self).same_but_port_trees(&*final(self)),
            old(self).has_port_tree(key(*port_tree_id)) ==> exists|i: int|
                0 <= i < old(self).spec_port_trees().len() && key(old(self).spec_port_trees()[i].spec_port_tree_id())
                    == key(*port_tree_id) && r == Some(old(self).spec_port_trees()[i])
                    && final(self).spec_port_trees() == old(self).spec_port_trees().remove(i),
            !old(self).has_port_tree(key(*port_tree_id)) ==> r is None && final(self).spec_port_trees()
                == old(self).spec_port_trees(),
    {
        match self.find_port_tree(port_tree_id) {
            Some(i) => {
                let t = self.port_trees.remove(i);
                proof {
                    let old_s = old(self).spec_port_trees();
                    assert forall|a: int, b: int|
                        0 <= a < b < self.port_trees@.len() implies key(self.port_trees@[a].spec_port_tree_id())
                        != key(self.port_trees@[b].spec_port_tree_id()) by {
                        let a0 = if a < i { a } else { a + 1 };
                        let b0 = if b < i { b } else { b + 1 };
                        assert(self.port_trees@[a] == old_s[a0]);
                        assert(self.port_trees@[b] == old_s[b0]);
                    }
                }
                Some(t)
            },
            None => None,
        }
    }

    pub fn get_stacked_trees(&self) -> (v: &Vec<(Uuid, Tree)>)
        ensures
            v@ == self.spec_stacked(),
    {
        &self.stacked_trees
    }

    pub fn get_port_trees(&self) -> (v: &Vec<PortTree>)
        ensures
            v@ == self.spec_port_trees(),
    {
        &self.port_trees
    }

    /// Forgets which ports were tried for the tree.
    pub fn clear_tried_ports(&mut self, rw_tree_id: &TreeID)
        ensures
            old(self).same_but_tried(&*final(self)),
            forall|k: (Seq<char>, Uuid), p: PortNo| was_tried(final(self).spec_tried(), k, p) <==> (was_tried(
                old(self).spec_tried(),
                k,
                p,
            ) && k != key(*rw_tree_id)),
    {
        let mut kept: Vec<(TreeID, PortNo)> = Vec::new();
        let mut i: usize = 0;
        while i < self.tried_ports.len()
            invariant
                i <= self.tried_ports@.len(),
                self.tried_ports@ == old(self).tried_ports@,
                forall|k: (Seq<char>, Uuid), p: PortNo| was_tried(kept@, k, p) <==> (was_tried(
                    self.tried_ports@.take(i as int),
                    k,
                    p,
                ) && k != key(*rw_tree_id)),
            decreases self.tried_ports@.len() - i,
        {
            let ghost before = kept@;
            let entry_id = self.tried_ports[i].0.clone();
            let entry_port = self.tried_ports[i].1;
            if !same_id(&entry_id, rw_tree_id) {
                kept.push((entry_id, entry_port));
            }
            proof {
                let prefix = self.tried_ports@.take(i as int);
                let next = self.tried_ports@.take(i + 1);
                assert(next =~= prefix.push(self.tried_ports@[i as int]));
                assert forall|k: (Seq<char>, Uuid), p: PortNo| was_tried(kept@, k, p) <==> (was_tried(
                    next,
                    k,
                    p,
                ) && k != key(*rw_tree_id)) by {
                    if was_tried(kept@, k, p) {
                        let j = choose|j: int| 0 <= j < kept@.len() && key((#[trigger] kept@[j]).0) == k && kept@[j].1 == p;
                        if j < before.len() {
                            assert(before[j] == kept@[j]);
                            assert(was_tried(before, k, p));
                            let m = choose|m: int| 0 <= m < prefix.len() && key((#[trigger] prefix[m]).0) == k && prefix[m].1 == p;
                            assert(next[m] == prefix[m]);
                        } else {
                            assert(next[i as int] == self.tried_ports@[i as int]);
                        }
                    }
                    if was_tried(next, k, p) && k != key(*rw_tree_id) {
                        let m = choose|m: int| 0 <= m < next.len() && key((#[trigger] next[m]).0) == k && next[m].1 == p;
                        if m < i {
                            assert(prefix[m] == next[m]);
                            assert(was_tried(prefix, k, p));
                            assert(was_tried(before, k, p));
                            let j = choose|j: int| 0 <= j < before.len() && key((#[trigger] before[j]).0) == k && before[j].1 == p;
                            assert(kept@[j] == before[j]);
                        } else {
                            assert(kept@[kept@.len() - 1] == (entry_id, entry_port));
                        }
                    }
                }
            }
            i = i + 1;
        }
        assert(self.tried_ports@.take(self.tried_ports@.len() as int) =~= self.tried_ports@);
        self.tried_ports = kept;
    }

    /// Records that the port was tried as a new parent for the tree.
    pub fn add_tried_port(&mut self, rw_tree_id: &TreeID, port_no: PortNo)
        ensures
            old(self).same_but_tried(&*final(self)),
            forall|k: (Seq<char>, Uuid), p: PortNo| was_tried(final(self).spec_tried(), k, p) <==> (was_tried(
                old(self).spec_tried(),
                k,
                p,
            ) || (k == key(*rw_tree_id) && p == port_no)),
    {
        let ghost before = self.tried_ports@;
        self.tried_ports.push((rw_tree_id.clone(), port_no));
        proof {
            assert forall|k: (Seq<char>, Uuid), p: PortNo| was_tried(self.tried_ports@, k, p) <==> (was_tried(
                before,
                k,
                p,
            ) || (k == key(*rw_tree_id) && p == port_no)) by {
                if was_tried(before, k, p) {
                    let m = choose|m: int| 0 <= m < before.len() && key((#[trigger] before[m]).0) == k && before[m].1 == p;
                    assert(self.tried_ports@[m] == before[m]);
                }
                if k == key(*rw_tree_id) && p == port_no {
                    assert(self.tried_ports@[before.len() as int].0 == *rw_tree_id);
                }
                if was_tried(self.tried_ports@, k, p) {
                    let m = choose|m: int|
                        0 <= m < self.tried_ports@.len() && key((#[trigger] self.tried_ports@[m]).0) == k
                            && self.tried_ports@[m].1 == p;
                    if m < before.len() {
                        assert(before[m] == self.tried_ports@[m]);
                    }
                }
            }
        }
    }

    fn tried_ports_contains(&self, rw_tree_id: &TreeID, port_no: PortNo) -> (b: bool)
        ensures
            b == was_tried(self.spec_tried(), key(*rw_tree_id), port_no),
    {
        let mut i: usize = 0;
        while i < self.tried_ports.len()
            invariant
                i <= self.tried_ports@.len(),
                forall|k: int|
                    0 <= k < i ==> !(key((#[trigger] self.tried_ports@[k]).0) == key(*rw_tree_id)
                        && self.tried_ports@[k].1 == port_no),
            decreases self.tried_ports@.len() - i,
        {
            if same_id(&self.tried_ports[i].0, rw_tree_id) && self.tried_ports[i].1 == port_no {
                return true;
            }
            i = i + 1;
        }
        false
    }

    /// The routing entry of the stacked tree filed under the UUID.
    pub fn get_tree_entry(&self, tree_uuid: &Uuid) -> (r: Result<RoutingTableEntry, TraphError>)
        ensures
            self.has_stacked(*tree_uuid) ==> (r matches Ok(e) && exists|i: int|
                0 <= i < self.spec_stacked().len() && self.spec_stacked()[i].0 == *tree_uuid
                    && e == self.spec_stacked()[i].1.spec_entry()),
            !self.has_stacked(*tree_uuid) ==> (r matches Err(TraphError::Chain { func_name, comment })
                && func_name == "get_tree_entry"),
    {
        match self.get_tree(tree_uuid) {
            Ok(tree) => Ok(tree.get_table_entry()),
            Err(_) => Err(TraphError::Chain { func_name: "get_tree_entry", comment: "" }),
        }
    }

    /// Replaces the routing entry of the stacked tree filed under the UUID.
    pub fn set_tree_entry(&mut self, tree_uuid: &Uuid, entry: RoutingTableEntry) -> (r: Result<(), TraphError>)
        requires
            old(self).wf(),
        ensures
            entry_set(*old(self), *final(self), *tree_uuid, entry, r),
    {
        match self.find_stacked(tree_uuid) {
            Some(i) => {
                let (u, mut tree) = self.stacked_trees.remove(i);
                tree.set_table_entry(entry);
                self.stacked_trees.insert(i, (u, tree));
                proof {
                    let old_s = old(self).spec_stacked();
                    assert forall|k: int| 0 <= k < old_s.len() && k != i implies self.stacked_trees@[k] == old_s[k] by {
                    }
                    assert forall|a: int, b: int|
                        0 <= a < b < self.stacked_trees@.len() implies self.stacked_trees@[a].0
                        != self.stacked_trees@[b].0 by {
                        assert(self.stacked_trees@[a].0 == old_s[a].0);
                        assert(self.stacked_trees@[b].0 == old_s[b].0);
                    }
                }
                Ok(())
            },
            None => Err(
                TraphError::Tree { func_name: "set_tree_entry", cell_id: self.cell_id.clone(), tree_uuid: *tree_uuid },
            ),
        }
    }

    /// Replaces the routing entry of the port tree with the given id.
    pub fn set_port_tree_entry(&mut self, port_tree_id: &TreeID, entry: RoutingTableEntry) -> (r: Result<(), TraphError>)
        requires
            old(self).wf(),
        ensures
            final(self).wf(),
            old(self).same_but_port_trees(&*final(self)),
            old(self).has_port_tree(key(*port_tree_id)) ==> r is Ok && exists|i: int|
                0 <= i < old(self).spec_port_trees().len() && key(old(self).spec_port_trees()[i].spec_port_tree_id())
                    == key(*port_tree_id) && final(self).spec_port_trees().len() == old(self).spec_port_trees().len()
                    && final(self).spec_port_trees()[i].spec_entry() == entry
                    && final(self).spec_port_trees()[i].spec_port_tree_id() == old(self).spec_port_trees()[i].spec_port_tree_id()
                    && forall|k: int|
                    0 <= k < old(self).spec_port_trees().len() && k != i ==> final(self).spec_port_trees()[k]
                        == old(self).spec_port_trees()[k],
            !old(self).has_port_tree(key(*port_tree_id)) ==> (r matches Err(TraphError::Tree { func_name, cell_id, tree_uuid })
                && func_name == "set_port_tree_entry" && tree_uuid == port_tree_id.spec_uuid()
                && final(self).spec_port_trees() == old(self).spec_port_trees()),
    {
        match self.find_port_tree(port_tree_id) {
            Some(i) => {
                let mut t = self.port_trees.remove(i);
                t.set_entry(entry);
                self.port_trees.insert(i, t);
                proof {
                    let old_s = old(self).spec_port_trees();
                    assert forall|a: int, b: int|
                        0 <= a < b < self.port_trees@.len() implies key(self.port_trees@[a].spec_port_tree_id())
                        != key(self.port_trees@[b].spec_port_tree_id()) by {
                        assert(self.port_trees@[a].spec_port_tree_id() == old_s[a].spec_port_tree_id());
                        assert(self.port_trees@[b].spec_port_tree_id() == old_s[b].spec_port_tree_id());
                    }
                }
                Ok(())
            },
            None => Err(
                TraphError::Tree {
                    func_name: "set_port_tree_entry",
                    cell_id: self.cell_id.clone(),
                    tree_uuid: port_tree_id.get_uuid(),
                },
            ),
        }
    }

    /// Whether a stacked tree is filed under the tree id's UUID.
    pub fn has_tree(&self, tree_id: &TreeID) -> (b: bool)
        ensures
            b == self.has_stacked(tree_id.spec_uuid()),
    {
        self.find_stacked(&tree_id.get_uuid()).is_some()
    }

    pub fn is_port_connected(&self, port_number: PortNumber) -> (b: bool)
        requires
            (port_number.port_no.0 as int) < self.spec_elements().len(),
        ensures
            b == self.spec_elements()[port_number.port_no.0 as int].spec_is_connected(),
    {
        self.elements[port_number.get_port_no().0 as usize].is_connected()
    }

    pub fn is_port_broken(&self, port_number: PortNumber) -> (b: bool)
        requires
            (port_number.port_no.0 as int) < self.spec_elements().len(),
        ensures
            b == self.spec_elements()[port_number.port_no.0 as int].spec_is_broken(),
    {
        self.elements[port_number.get_port_no().0 as usize].is_broken()
    }

    pub fn get_port_status(&self, port_number: PortNumber) -> (s: PortState)
        requires
            (port_number.port_no.0 as int) < self.spec_elements().len(),
        ensures
            s == self.spec_elements()[port_number.port_no.0 as int].spec_state(),
    {
        self.elements[port_number.get_port_no().0 as usize].get_state()
    }

    /// Marks the port broken, keeping its state.
    pub fn set_broken(&mut self, port_number: PortNumber)
        requires
            (port_number.port_no.0 as int) < old(self).spec_elements().len(),
        ensures
            old(self).same_but_elements(&*final(self)),
            ({
                let i = port_number.port_no.0 as int;
                let e = old(self).spec_elements()[i];
                &&& final(self).spec_elements().len() == old(self).spec_elements().len()
                &&& final(self).spec_elements()[i].is(e.spec_port_no(), e.spec_is_connected(), true, e.spec_state(),
                    e.spec_hops(), e.spec_path())
                &&& forall|k: int| 0 <= k < old(self).spec_elements().len() && k != i ==> final(self).spec_elements()[k]
                    == old(self).spec_elements()[k]
            }),
    {
        let i = port_number.get_port_no().0 as usize;
        let mut e = self.elements[i];
        e.set_broken();
        self.elements.set(i, e);
    }

    fn mark(&mut self, port_number: PortNumber, state: PortState)
        requires
            (port_number.port_no.0 as int) < old(self).spec_elements().len(),
        ensures
            old(self).same_but_elements(&*final(self)),
            final(self).spec_elements().len() == old(self).spec_elements().len(),
            old(self).spec_elements()[port_number.port_no.0 as int].with_state(
                final(self).spec_elements()[port_number.port_no.0 as int],
                state,
            ),
            forall|k: int|
                0 <= k < old(self).spec_elements().len() && k != port_number.port_no.0 ==> final(self).spec_elements()[k]
                    == old(self).spec_elements()[k],
    {
        let i = port_number.get_port_no().0 as usize;
        let mut e = self.elements[i];
        match state {
            PortState::Parent => e.mark_parent(),
            PortState::Child => e.mark_child(),
            PortState::Pruned => e.mark_pruned(),
            PortState::Broken => e.mark_broken(),
            PortState::Unknown => {
                e = TraphElement::new(e.is_connected(), e.get_port_no(), PortState::Unknown, e.get_hops(), e.get_path());
                if self.elements[i].is_broken() {
                    e.set_broken();
                }
            },
        }
        self.elements.set(i, e);
    }

    pub fn mark_parent(&mut self, port_number: PortNumber)
        requires
            (port_number.port_no.0 as int) < old(self).spec_elements().len(),
        ensures
            old(self).same_but_elements(&*final(self)),
            final(self).spec_elements().len() == old(self).spec_elements().len(),
            old(self).spec_elements()[port_number.port_no.0 as int].with_state(
                final(self).spec_elements()[port_number.port_no.0 as int],
                PortState::Parent,
            ),
            forall|k: int|
                0 <= k < old(self).spec_elements().len() && k != port_number.port_no.0 ==> final(self).spec_elements()[k]
                    == old(self).spec_elements()[k],
    {
        self.mark(port_number, PortState::Parent)
    }

    pub fn mark_child(&mut self, port_number: PortNumber)
        requires
            (port_number.port_no.0 as int) < old(self).spec_elements().len(),
        ensures
            old(self).same_but_elements(&*final(self)),
            final(self).spec_elements().len() == old(self).spec_elements().len(),
            old(self).spec_elements()[port_number.port_no.0 as int].with_state(
                final(self).spec_elements()[port_number.port_no.0 as int],
                PortState::Child,
            ),
            forall|k: int|
                0 <= k < old(self).spec_elements().len() && k != port_number.port_no.0 ==> final(self).spec_elements()[k]
                    == old(self).spec_elements()[k],
    {
        self.mark(port_number, PortState::Child)
    }

    pub fn mark_pruned(&mut self, port_number: PortNumber)
        requires
            (port_number.port_no.0 as int) < old(self).spec_elements().len(),
        ensures
            old(self).same_but_elements(&*final(self)),
            final(self).spec_elements().len() == old(self).spec_elements().len(),
            old(self).spec_elements()[port_number.port_no.0 as int].with_state(
                final(self).spec_elements()[port_number.port_no.0 as int],
                PortState::Pruned,
            ),
            forall|k: int|
                0 <= k < old(self).spec_elements().len() && k != port_number.port_no.0 ==> final(self).spec_elements()[k]
                    == old(self).spec_elements()[k],
    {
        self.mark(port_number, PortState::Pruned)
    }

    pub fn mark_broken(&mut self, port_number: PortNumber)
        requires
            (port_number.port_no.0 as int) < old(self).spec_elements().len(),
        ensures
            old(self).same_but_elements(&*final(self)),
            final(self).spec_elements().len() == old(self).spec_elements().len(),
            old(self).spec_elements()[port_number.port_no.0 as int].with_state(
                final(self).spec_elements()[port_number.port_no.0 as int],
                PortState::Broken,
            ),
            forall|k: int|
                0 <= k < old(self).spec_elements().len() && k != port_number.port_no.0 ==> final(self).spec_elements()[k]
                    == old(self).spec_elements()[k],
    {
        self.mark(port_number, PortState::Broken)
    }

    /// What `get_untried_parent_element` returns: the first parent element
    /// when it is usable, else nothing.
    #[verifier::opaque]
    pub open spec fn parent_candidate(&self, c: Option<TraphElement>, rw: (Seq<char>, Uuid), broken_path: Path) -> bool {
        &&& (!self.has_parent() ==> c is None)
        &&& (self.has_parent() ==> exists|i: int|
            self.is_first_parent(i) && if usable(self.spec_elements()[i], self.spec_tried(), rw, broken_path) {
                c == Some(self.spec_elements()[i])
            } else {
                c is None
            })
    }

    /// What `get_untried_pruned_element` returns: among the usable pruned
    /// elements, the first with the fewest hops; nothing if there is none.
    #[verifier::opaque]
    pub open spec fn pruned_candidate(&self, c: Option<TraphElement>, rw: (Seq<char>, Uuid), broken_path: Path) -> bool {
        &&& (c is None <==> forall|k: int|
            0 <= k < self.spec_elements().len() ==> !(usable(#[trigger] self.spec_elements()[k], self.spec_tried(), rw,
                broken_path) && self.spec_elements()[k].spec_state() == PortState::Pruned))
        &&& (c matches Some(e) ==> exists|i: int|
            0 <= i < self.spec_elements().len() && self.spec_elements()[i] == e && usable(e, self.spec_tried(), rw,
                broken_path) && e.spec_state() == PortState::Pruned && forall|k: int|
                0 <= k < self.spec_elements().len() && usable(#[trigger] self.spec_elements()[k], self.spec_tried(), rw,
                    broken_path) && self.spec_elements()[k].spec_state() == PortState::Pruned ==> hops_of(e) <= hops_of(
                    self.spec_elements()[k],
                ) && (k < i ==> hops_of(e) < hops_of(self.spec_elements()[k])))
    }

    /// What `get_untried_child_element` returns: the first connected child
    /// element when it is untried and not broken, else nothing.
    #[verifier::opaque]
    pub open spec fn child_candidate(&self, c: Option<TraphElement>, rw: (Seq<char>, Uuid)) -> bool {
        &&& ((forall|k: int|
            0 <= k < self.spec_elements().len() ==> !((#[trigger] self.spec_elements()[k]).spec_is_connected()
                && self.spec_elements()[k].spec_state() == PortState::Child)) ==> c is None)
        &&& (forall|i: int|
            0 <= i < self.spec_elements().len() && (#[trigger] self.spec_elements()[i]).spec_is_connected()
                && self.spec_elements()[i].spec_state() == PortState::Child && (forall|k: int|
                0 <= k < i ==> !((#[trigger] self.spec_elements()[k]).spec_is_connected()
                    && self.spec_elements()[k].spec_state() == PortState::Child)) ==> if !was_tried(
                self.spec_tried(),
                rw,
                self.spec_elements()[i].spec_port_no(),
            ) && !self.spec_elements()[i].spec_is_broken() {
                c == Some(self.spec_elements()[i])
            } else {
                c is None
            })
    }

    /// The parent element, when it can become the new parent of the tree.
    pub fn get_untried_parent_element(&self, rw_tree_id: &TreeID, broken_path: Path) -> (r: Option<TraphElement>)
        ensures
            self.parent_candidate(r, key(*rw_tree_id), broken_path),
    {
        proof {
            reveal(Traph::parent_candidate);
        }
        match self.get_parent_element() {
            Err(_) => None,
            Ok(element) => {
                if element.is_on_broken_path(broken_path) || element.is_broken() || !element.is_connected()
                    || self.tried_ports_contains(rw_tree_id, element.get_port_no()) {
                    None
                } else {
                    Some(element)
                }
            },
        }
    }

    /// Among the usable pruned elements, the first with the fewest hops.
    pub fn get_untried_pruned_element(&self, rw_tree_id: &TreeID, broken_path: Path) -> (r: Option<TraphElement>)
        ensures
            self.pruned_candidate(r, key(*rw_tree_id), broken_path),
    {
        proof {
            reveal(Traph::pruned_candidate);
        }
        let mut best: Option<TraphElement> = None;
        let ghost mut best_i: int = 0;
        let mut i: usize = 0;
        while i < self.elements.len()
            invariant
                i <= self.elements@.len(),
                best is None <==> forall|k: int|
                    0 <= k < i ==> !(usable(#[trigger] self.elements@[k], self.tried_ports@, key(*rw_tree_id),
                        broken_path) && self.elements@[k].spec_state() == PortState::Pruned),
                best matches Some(e) ==> 0 <= best_i < i && self.elements@[best_i] == e && usable(e, self.tried_ports@,
                    key(*rw_tree_id), broken_path) && e.spec_state() == PortState::Pruned && forall|k: int|
                    0 <= k < i && usable(#[trigger] self.elements@[k], self.tried_ports@, key(*rw_tree_id), broken_path)
                        && self.elements@[k].spec_state() == PortState::Pruned ==> hops_of(e) <= hops_of(self.elements@[k])
                        && (k < best_i ==> hops_of(e) < hops_of(self.elements@[k])),
            decreases self.elements@.len() - i,
        {
            let element = self.elements[i];
            if element.is_connected() && element.is_state(PortState::Pruned) && !self.tried_ports_contains(
                rw_tree_id,
                element.get_port_no(),
            ) && !element.is_on_broken_path(broken_path) && !element.is_broken() {
                match best {
                    None => {
                        best = Some(element);
                        proof {
                            best_i = i as int;
                        }
                    },
                    Some(b) => {
                        if element.get_hops().0.0 < b.get_hops().0.0 {
                            best = Some(element);
                            proof {
                                best_i = i as int;
                            }
                        }
                    },
                }
            }
            i = i + 1;
        }
        best
    }

    /// The first connected child element, when it can become the new parent.
    pub fn get_untried_child_element(&self, rw_tree_id: &TreeID) -> (r: Option<TraphElement>)
        ensures
            self.child_candidate(r, key(*rw_tree_id)),
    {
        proof {
            reveal(Traph::child_candidate);
        }
        let mut i: usize = 0;
        while i < self.elements.len()
            invariant
                i <= self.elements@.len(),
                forall|k: int|
                    0 <= k < i ==> !((#[trigger] self.elements@[k]).spec_is_connected() && self.elements@[k].spec_state()
                        == PortState::Child),
            decreases self.elements@.len() - i,
        {
            let element = self.elements[i];
            if element.is_connected() && element.is_state(PortState::Child) {
                proof {
                    reveal(Traph::child_candidate);
                    let s = self.spec_elements();
                    assert(s[i as int] == element);
                    assert(s[i as int].spec_is_connected() && s[i as int].spec_state() == PortState::Child);
                    assert forall|j: int|
                        0 <= j < s.len() && (#[trigger] s[j]).spec_is_connected() && s[j].spec_state() == PortState::Child
                            && (forall|k: int| 0 <= k < j ==> !((#[trigger] s[k]).spec_is_connected() && s[k].spec_state()
                            == PortState::Child)) implies j == i by {
                        if j > i {
                            assert(s[i as int] == element);
                        }
                    }
                }
                if !self.tried_ports_contains(rw_tree_id, element.get_port_no()) && !element.is_broken() {
                    return Some(element);
                } else {
                    return None;
                }
            }
            i = i + 1;
        }
        None
    }

    /// Picks, among the usable parent, the best pruned and the first child
    /// element, the one with the fewest hops (the first on a tie), records
    /// its port as tried, and returns it.
    pub fn find_new_parent_port(&mut self, rw_tree_id: &TreeID, broken_path: Path) -> (r: Option<PortNo>)
        ensures
            new_parent_found(*old(self), *final(self), *rw_tree_id, broken_path, r),
    {
        let p1 = self.get_untried_parent_element(rw_tree_id, broken_path);
        let p2 = self.get_untried_pruned_element(rw_tree_id, broken_path);
        let p3 = self.get_untried_child_element(rw_tree_id);
        let best12 = match (p1, p2) {
            (None, _) => p2,
            (_, None) => p1,
            (Some(x), Some(y)) => if y.get_hops().0.0 < x.get_hops().0.0 {
                p2
            } else {
                p1
            },
        };
        let best = match (best12, p3) {
            (None, _) => p3,
            (_, None) => best12,
            (Some(x), Some(y)) => if y.get_hops().0.0 < x.get_hops().0.0 {
                p3
            } else {
                best12
            },
        };
        proof {
            assert(best == fewer_hops(fewer_hops(p1, p2), p3));
        }
        match best {
            Some(element) => {
                let port_no = element.get_port_no();
                self.add_tried_port(rw_tree_id, port_no);
                Some(port_no)
            },
            None => None,
        }
    }

    /// Updates the port tree filed under the tree id without its root port.
    fn tree_apply_update(&mut self, op: ChildUpdate, port_tree_id: &TreeID, child: PortNumber) -> (r: Result<
        RoutingTableEntry,
        TraphError,
    >)
        requires
            old(self).wf(),
        ensures
            final(self).wf(),
            old(self).same_but_port_trees(&*final(self)),
            self_port_tree_update(old(self).spec_port_trees(), final(self).spec_port_trees(),
                (port_tree_id.spec_name(), strip_port(port_tree_id.spec_uuid())), op, child.port_no.0, r,
                "tree_apply_update", port_tree_id.spec_uuid()),
    {
        let tree_id = port_tree_id.without_root_port_number();
        proof {
            assert(key(tree_id) == (port_tree_id.spec_name(), strip_port(port_tree_id.spec_uuid())));
        }
        self.port_tree_update(op, &tree_id, child, "tree_apply_update", port_tree_id.get_uuid())
    }

    /// Updates the port tree with the given id.
    fn port_tree_apply_update(&mut self, op: ChildUpdate, port_tree_id: &TreeID, child: PortNumber) -> (r: Result<
        RoutingTableEntry,
        TraphError,
    >)
        requires
            old(self).wf(),
        ensures
            final(self).wf(),
            old(self).same_but_port_trees(&*final(self)),
            self_port_tree_update(old(self).spec_port_trees(), final(self).spec_port_trees(), key(*port_tree_id),
                op, child.port_no.0, r, "port_tree_apply_update", port_tree_id.spec_uuid()),
    {
        self.port_tree_update(op, port_tree_id, child, "port_tree_apply_update", port_tree_id.get_uuid())
    }

    fn port_tree_update(&mut self, op: ChildUpdate, id: &TreeID, child: PortNumber, func_name: &'static str,
        err_uuid: Uuid) -> (r: Result<RoutingTableEntry, TraphError>)
        requires
            old(self).wf(),
        ensures
            final(self).wf(),
            old(self).same_but_port_trees(&*final(self)),
            self_port_tree_update(old(self).spec_port_trees(), final(self).spec_port_trees(), key(*id), op,
                child.port_no.0, r, func_name, err_uuid),
    {
        match self.find_port_tree(id) {
            Some(i) => {
                let mut t = self.port_trees.remove(i);
                let entry = match op {
                    ChildUpdate::Add => t.add_child(child),
                    ChildUpdate::Remove => t.remove_child(child),
                };
                self.port_trees.insert(i, t);
                proof {
                    let old_s = old(self).spec_port_trees();
                    assert forall|a: int, b: int|
                        0 <= a < b < self.port_trees@.len() implies key(self.port_trees@[a].spec_port_tree_id())
                        != key(self.port_trees@[b].spec_port_tree_id()) by {
                        assert(self.port_trees@[a].spec_port_tree_id() == old_s[a].spec_port_tree_id());
                        assert(self.port_trees@[b].spec_port_tree_id() == old_s[b].spec_port_tree_id());
                    }
                    assert forall|k: int| 0 <= k < old_s.len() && k != i implies self.port_trees@[k] == old_s[k] by {
                    }
                }
                Ok(entry)
            },
            None => Err(TraphError::Tree { func_name, cell_id: self.cell_id.clone(), tree_uuid: err_uuid }),
        }
    }

    /// Updates every stacked tree, returning their new entries in order.
    fn stacked_tree_apply_update(&mut self, op: ChildUpdate, child: PortNumber) -> (v: Vec<RoutingTableEntry>)
        requires
            old(self).wf(),
        ensures
            final(self).wf(),
            old(self).same_but_stacked(&*final(self)),
            v@.len() == old(self).spec_stacked().len(),
            stacked_updated(old(self).spec_stacked(), final(self).spec_stacked(), v@, op, child.port_no.0),
    {
        let mut entries: Vec<RoutingTableEntry> = Vec::new();
        let n = self.stacked_trees.len();
        let mut i: usize = 0;
        while i < n
            invariant
                n == old(self).stacked_trees@.len(),
                self.stacked_trees@.len() == n,
                i <= n,
                entries@.len() == i,
                self.cell_id == old(self).cell_id,
                self.base_tree_id == old(self).base_tree_id,
                self.port_tree_id == old(self).port_tree_id,
                self.port_trees@ == old(self).port_trees@,
                self.elements@ == old(self).elements@,
                self.tried_ports@ == old(self).tried_ports@,
                forall|k: int|
                    0 <= k < n ==> (#[trigger] self.stacked_trees@[k]).0 == old(self).stacked_trees@[k].0,
                forall|k: int|
                    0 <= k < i ==> tree_updated(old(self).stacked_trees@[k].1, (#[trigger] self.stacked_trees@[k]).1, op,
                        child.port_no.0) && entries@[k] == self.stacked_trees@[k].1.spec_entry(),
                forall|k: int| i <= k < n ==> (#[trigger] self.stacked_trees@[k]) == old(self).stacked_trees@[k],
            decreases n - i,
        {
            let (u, mut tree) = self.stacked_trees.remove(i);
            let entry = match op {
                ChildUpdate::Add => tree.add_child(child),
                ChildUpdate::Remove => tree.remove_child(child),
            };
            self.stacked_trees.insert(i, (u, tree));
            entries.push(entry);
            i = i + 1;
        }
        proof {
            let old_s = old(self).spec_stacked();
            assert forall|a: int, b: int|
                0 <= a < b < self.stacked_trees@.len() implies self.stacked_trees@[a].0 != self.stacked_trees@[b].0 by {
                assert(self.stacked_trees@[a].0 == old_s[a].0);
                assert(self.stacked_trees@[b].0 == old_s[b].0);
            }
        }
        entries
    }

    fn apply_update(&mut self, op: ChildUpdate, port_tree_id: &TreeID, child: PortNumber) -> (r: Result<
        Vec<RoutingTableEntry>,
        TraphError,
    >)
        requires
            old(self).wf(),
        ensures
            final(self).wf(),
            update_outcome(*old(self), *final(self), op, *port_tree_id, child, r),
    {
        let tree_entry = match self.tree_apply_update(op, port_tree_id, child) {
            Ok(e) => e,
            Err(_) => {
                return Err(TraphError::Chain { func_name: "add_or_remove_child", comment: "" });
            },
        };
        let ghost after_tree = *self;
        proof {
            lemma_port_tree_update_keeps_ids(old(self).spec_port_trees(), after_tree.spec_port_trees(),
                (port_tree_id.spec_name(), strip_port(port_tree_id.spec_uuid())), op, child.port_no.0, Ok(tree_entry),
                "tree_apply_update", port_tree_id.spec_uuid());
            let kk = key(*port_tree_id);
            if old(self).has_port_tree(kk) {
                let i = choose|i: int|
                    0 <= i < old(self).spec_port_trees().len() && key(
                        (#[trigger] old(self).spec_port_trees()[i]).spec_port_tree_id(),
                    ) == kk;
                assert(after_tree.spec_port_trees()[i].spec_port_tree_id() == old(self).spec_port_trees()[i].spec_port_tree_id());
            }
            if after_tree.has_port_tree(kk) {
                let i = choose|i: int|
                    0 <= i < after_tree.spec_port_trees().len() && key(
                        (#[trigger] after_tree.spec_port_trees()[i]).spec_port_tree_id(),
                    ) == kk;
                assert(after_tree.spec_port_trees()[i].spec_port_tree_id() == old(self).spec_port_trees()[i].spec_port_tree_id());
            }
            assert(old(self).has_port_tree(kk) == after_tree.has_port_tree(kk));
        }
        let port_tree_entry = match self.port_tree_apply_update(op, port_tree_id, child) {
            Ok(e) => e,
            Err(_) => {
                return Err(TraphError::Chain { func_name: "add_or_remove_child", comment: "" });
            },
        };
        let mut stacked_tree_entries = self.stacked_tree_apply_update(op, child);
        let ghost v0 = stacked_tree_entries@;
        stacked_tree_entries.push(tree_entry);
        stacked_tree_entries.push(port_tree_entry);
        proof {
            lemma_stacked_updated_extend(old(self).spec_stacked(), self.spec_stacked(), v0, stacked_tree_entries@, op,
                child.port_no.0);
        }
        Ok(stacked_tree_entries)
    }

    /// Adds the child port to the tree, the port tree and every stacked tree;
    /// returns the stacked trees' entries, then the tree's, then the port tree's.
    pub fn add_child(&mut self, port_tree_id: &TreeID, child: PortNumber) -> (r: Result<Vec<RoutingTableEntry>, TraphError>)
        requires
            old(self).wf(),
        ensures
            final(self).wf(),
            update_outcome(*old(self), *final(self), ChildUpdate::Add, *port_tree_id, child, r),
    {
        self.apply_update(ChildUpdate::Add, port_tree_id, child)
    }

    /// Removes the child port from the tree, the port tree and every stacked
    /// tree; returns the entries as `add_child` does.
    pub fn remove_child(&mut self, port_tree_id: &TreeID, child: PortNumber) -> (r: Result<Vec<RoutingTableEntry>, TraphError>)
        requires
            old(self).wf(),
        ensures
            final(self).wf(),
            update_outcome(*old(self), *final(self), ChildUpdate::Remove, *port_tree_id, child, r),
    {
        self.apply_update(ChildUpdate::Remove, port_tree_id, child)
    }

    /// Replaces a child port by another in the tree, the port tree and every
    /// stacked tree; returns the stacked trees' entries, then the tree's and
    /// the port tree's.
    pub fn swap_child(&mut self, port_tree_id: &TreeID, old_child: PortNumber, new_child: PortNumber) -> (r: Result<
        Vec<RoutingTableEntry>,
        TraphError,
    >)
        requires
            old(self).wf(),
        ensures
            final(self).wf(),
            final(self).spec_elements() == old(self).spec_elements(),
            final(self).spec_tried() == old(self).spec_tried(),
            final(self).spec_cell_id() == old(self).spec_cell_id(),
            r is Ok ==> old(self).has_port_tree((port_tree_id.spec_name(), strip_port(port_tree_id.spec_uuid())))
                && old(self).has_port_tree(key(*port_tree_id)),
            !old(self).has_port_tree((port_tree_id.spec_name(), strip_port(port_tree_id.spec_uuid())))
                ==> (r matches Err(TraphError::Chain { func_name, comment }) && func_name == "swap_child"
                && final(self).spec_port_trees() == old(self).spec_port_trees()),
            r matches Ok(v) ==> v@.len() == old(self).spec_stacked().len() + 2 && forall|k: int|
                0 <= k < old(self).spec_stacked().len() ==> v@[k] == final(self).spec_stacked()[k].1.spec_entry()
                    && final(self).spec_stacked()[k].1.spec_entry().spec_mask() == (old(self).spec_stacked()[k].1.spec_entry().spec_mask()
                    & !port_mask_value(old_child.port_no.0)) | port_mask_value(new_child.port_no.0),
    {
        match self.tree_apply_update(ChildUpdate::Remove, port_tree_id, old_child) {
            Ok(_) => {},
            Err(_) => {
                return Err(TraphError::Chain { func_name: "swap_child", comment: "tree remove" });
            },
        }
        let tree_entry = match self.tree_apply_update(ChildUpdate::Add, port_tree_id, new_child) {
            Ok(e) => e,
            Err(_) => {
                return Err(TraphError::Chain { func_name: "swap_child", comment: "tree add" });
            },
        };
        match self.port_tree_apply_update(ChildUpdate::Remove, port_tree_id, old_child) {
            Ok(_) => {},
            Err(_) => {
                return Err(TraphError::Chain { func_name: "swap_child", comment: "port tree remove" });
            },
        }
        let port_tree_entry = match self.port_tree_apply_update(ChildUpdate::Add, port_tree_id, new_child) {
            Ok(e) => e,
            Err(_) => {
                return Err(TraphError::Chain { func_name: "swap_child", comment: "port tree add" });
            },
        };
        let ghost mid = self.spec_stacked();
        self.stacked_tree_apply_update(ChildUpdate::Remove, old_child);
        let ghost mid2 = self.spec_stacked();
        let mut stacked_tree_entries = self.stacked_tree_apply_update(ChildUpdate::Add, new_child);
        stacked_tree_entries.push(tree_entry);
        stacked_tree_entries.push(port_tree_entry);
        Ok(stacked_tree_entries)
    }

    /// Records what a message says of a port for a tree: updates the routing
    /// entry of the stacked tree filed under the tree id without its root
    /// port and files the result under the tree id itself; then replaces the
    /// port's element with a connected one in the given state.
    pub fn update_element(&mut self, tree_id: &TreeID, port_number: PortNumber, port_status: PortState,
        children: &Vec<PortNumber>, hops: PathLength, path: Path) -> (r: Result<RoutingTableEntry, TraphError>)
        requires
            old(self).wf(),
            (port_number.port_no.0 as int) < old(self).spec_elements().len(),
        ensures
            final(self).wf(),
            !old(self).has_stacked(strip_port(tree_id.spec_uuid())) ==> (r matches Err(TraphError::Tree {
                func_name,
                cell_id,
                tree_uuid,
            }) && func_name == "update_element" && tree_uuid == tree_id.spec_uuid() && final(self).spec_stacked()
                == old(self).spec_stacked() && final(self).spec_elements() == old(self).spec_elements()),
            old(self).has_stacked(strip_port(tree_id.spec_uuid())) ==> (r matches Ok(e) && element_updated(
                *old(self),
                *final(self),
                *tree_id,
                port_number,
                port_status,
                children@,
                hops,
                path,
                e,
            )),
            final(self).spec_port_trees() == old(self).spec_port_trees(),
            final(self).spec_tried() == old(self).spec_tried(),
            final(self).spec_cell_id() == old(self).spec_cell_id(),
            r is Err ==> *final(self) == *old(self),
    {
        let port_no = port_number.get_port_no();
        let r = self.file_port_entry(tree_id, port_number, port_status, children);
        let table_entry = match r {
            Ok(e) => e,
            Err(e) => {
                return Err(e);
            },
        };
        let ghost filed = *self;
        let element = TraphElement::new(true, port_no, port_status, hops, path);
        self.elements.set(port_no.0 as usize, element);
        proof {
            assert(self.spec_stacked() == filed.spec_stacked());
        }
        Ok(table_entry)
    }

    /// The routing-entry half of `update_element`: the entry of the stacked
    /// tree filed under the tree id without its root port, updated for the
    /// port, filed under the tree id itself. The elements are unchanged.
    pub fn file_port_entry(&mut self, tree_id: &TreeID, port_number: PortNumber, port_status: PortState,
        children: &Vec<PortNumber>) -> (r: Result<RoutingTableEntry, TraphError>)
        requires
            old(self).wf(),
        ensures
            !old(self).has_stacked(strip_port(tree_id.spec_uuid())) ==> (r matches Err(TraphError::Tree {
                func_name,
                cell_id,
                tree_uuid,
            }) && func_name == "update_element" && cell_id == old(self).spec_cell_id() && tree_uuid == tree_id.spec_uuid()),
            old(self).has_stacked(strip_port(tree_id.spec_uuid())) ==> (r matches Ok(e) && entry_filed(
                *old(self),
                *final(self),
                *tree_id,
                port_number,
                port_status,
                children@,
                e,
            )),
            r is Err ==> *final(self) == *old(self),
    {
        let base = tree_id.without_root_port_number();
        let lookup = base.get_uuid();
        let mut tree = match self.find_stacked(&lookup) {
            Some(i) => self.stacked_trees[i].1.clone(),
            None => {
                return Err(
                    TraphError::Tree { func_name: "update_element", cell_id: self.cell_id.clone(), tree_uuid: tree_id.get_uuid() },
                );
            },
        };
        proof {
            let i = choose|i: int| 0 <= i < old(self).spec_stacked().len() && old(self).spec_stacked()[i].0 == lookup;
            lemma_old_entry_of(old(self).spec_stacked(), lookup, i);
        }
        let mut table_entry = tree.get_table_entry();
        table_entry.set_tree_id(tree_id);
        table_entry.add_children(children);
        table_entry.set_inuse();
        if port_status == PortState::Parent {
            table_entry.set_parent(port_number);
        }
        tree.set_table_entry(table_entry);
        self.stack_under(tree_id.get_uuid(), tree);
        proof {
            let stacked = self.spec_stacked();
            let j = choose|j: int| 0 <= j < stacked.len() && stacked[j] == (tree_id.spec_uuid(), tree);
            assert(self.spec_stacked()[j].0 == tree_id.spec_uuid());
            let oe = old_entry_of(old(self).spec_stacked(), strip_port(tree_id.spec_uuid()));
            assert(lookup == strip_port(tree_id.spec_uuid()));
            assert(table_entry.spec_uuid() == tree_id.spec_uuid());
            assert(table_entry.spec_inuse());
            assert(table_entry.spec_may_send() == oe.spec_may_send());
            assert(self.has_stacked(tree_id.spec_uuid()));
        }
        Ok(table_entry)
    }

    /// Files the tree under the key, replacing the tree filed there.
    fn stack_under(&mut self, k: Uuid, tree: Tree)
        requires
            old(self).wf(),
        ensures
            final(self).wf(),
            old(self).same_but_stacked(&*final(self)),
            final(self).has_stacked(k),
            exists|i: int|
                0 <= i < final(self).spec_stacked().len() && final(self).spec_stacked()[i] == (k, tree),
            old(self).has_stacked(k) ==> exists|i: int|
                0 <= i < old(self).spec_stacked().len() && old(self).spec_stacked()[i].0 == k
                    && final(self).spec_stacked() == old(self).spec_stacked().update(i, (k, tree)),
            !old(self).has_stacked(k) ==> final(self).spec_stacked() == old(self).spec_stacked().push((k, tree)),
    {
        match self.find_stacked(&k) {
            Some(i) => {
                self.stacked_trees.set(i, (k, tree));
                proof {
                    let old_s = old(self).spec_stacked();
                    assert forall|a: int, b: int|
                        0 <= a < b < self.stacked_trees@.len() implies self.stacked_trees@[a].0 != self.stacked_trees@[b].0 by {
                        assert(self.stacked_trees@[a].0 == old_s[a].0);
                        assert(self.stacked_trees@[b].0 == old_s[b].0);
                    }
                    assert(self.stacked_trees@[i as int] == (k, tree));
                }
            },
            None => {
                self.stacked_trees.push((k, tree));
                proof {
                    let old_s = old(self).spec_stacked();
                    assert forall|a: int, b: int|
                        0 <= a < b < self.stacked_trees@.len() implies self.stacked_trees@[a].0 != self.stacked_trees@[b].0 by {
                        if b == old_s.len() {
                            assert(old_s[a].0 != k);
                        }
                    }
                    assert(self.stacked_trees@[old_s.len() as int] == (k, tree));
                }
            },
        }
    }

    /// Files the tree under its own UUID, replacing the tree filed there.
    pub fn stack_tree(&mut self, tree: Tree)
        requires
            old(self).wf(),
        ensures
            tree_stacked(*old(self), *final(self), tree),
    {
        let k = tree.get_uuid();
        self.stack_under(k, tree);
    }

    /// Whether the parent port is broken.
    pub fn has_broken_parent(&self) -> (b: bool)
        ensures
            b == (self.has_parent() && exists|i: int| self.is_first_parent(i) && self.spec_elements()[i].spec_is_broken()),
    {
        match self.get_parent_element() {
            Ok(parent_element) => parent_element.is_broken(),
            Err(_) => false,
        }
    }

    /// Whether the parent is one hop from the root.
    pub fn is_one_hop(&self) -> (b: bool)
        ensures
            b == (self.has_parent() && exists|i: int|
                self.is_first_parent(i) && hops_of(self.spec_elements()[i]) == 1),
    {
        match self.get_parent_element() {
            Ok(parent_element) => parent_element.get_hops().0.0 == 1,
            Err(_) => false,
        }
    }

    /// A `hops` variable of path-length type whose value is the decimal
    /// hop count of the parent element.
    pub open spec fn is_hops_param(&self, v: GvmVariable) -> bool {
        &&& v.spec_var_type() == GvmVariableType::PathLength
        &&& v.spec_var_name() == seq!['h', 'o', 'p', 's']
        &&& exists|p: int| self.is_first_parent(p) && v.spec_value() == decimal(hops_of(self.spec_elements()[p]) as nat)
    }

    /// The values of the variables an equation uses; only `hops`, the
    /// parent's hop count, is known.
    pub fn get_params(&self, vars: &[GvmVariable]) -> (r: Result<Vec<GvmVariable>, TraphError>)
        ensures
            r matches Ok(v) ==> (vars@.len() > 0 ==> self.has_parent()) && v@.len() == vars@.len() && forall|k: int|
                0 <= k < vars@.len() ==> (#[trigger] vars@[k]).spec_var_name() == seq!['h', 'o', 'p', 's']
                    && self.is_hops_param(v@[k]),
            r is Err ==> exists|j: int|
                0 <= j < vars@.len() && (forall|k: int|
                    0 <= k < j ==> (#[trigger] vars@[k]).spec_var_name() == seq!['h', 'o', 'p', 's']) && if vars@[j].spec_var_name()
                    == seq!['h', 'o', 'p', 's'] {
                    !self.has_parent() && (r matches Err(TraphError::Chain { func_name, comment })
                        && func_name == "get_params")
                } else {
                    (r matches Err(TraphError::Gvm { func_name, var_name }) && func_name == "get_params"
                        && var_name@ == vars@[j].spec_var_name())
                },
            (forall|k: int| 0 <= k < vars@.len() ==> (#[trigger] vars@[k]).spec_var_name() == seq!['h', 'o', 'p', 's'])
                && (vars@.len() == 0 || self.has_parent()) ==> r is Ok,
    {
        proof {
            reveal_strlit("hops");
        }
        let hops_name = S("hops");
        let mut out: Vec<GvmVariable> = Vec::new();
        let mut i: usize = 0;
        while i < vars.len()
            invariant
                i <= vars@.len(),
                hops_name@ == seq!['h', 'o', 'p', 's'],
                out@.len() == i,
                i > 0 ==> self.has_parent(),
                forall|k: int| 0 <= k < i ==> #[trigger] hops_param_at(*self, vars@, out@, k),
            decreases vars@.len() - i,
        {
            let var = &vars[i];
            assert(*var == vars@[i as int]);
            assert forall|k: int| 0 <= k < i implies (#[trigger] vars@[k]).spec_var_name() == seq!['h', 'o', 'p', 's'] by {
                assert(hops_param_at(*self, vars@, out@, k));
            }
            if *var.get_var_name() == hops_name {
                let hops = match self.get_hops() {
                    Ok(h) => h,
                    Err(_) => {
                        return Err(TraphError::Chain { func_name: "get_params", comment: "" });
                    },
                };
                let ghost j = choose|j: int| self.is_first_parent(j) && self.spec_elements()[j].spec_hops() == hops;
                let str_hops = decimal_string(hops.0.0 as u64);
                let mut updated = GvmVariable::new(GvmVariableType::PathLength, "hops");
                updated.set_value(str_hops);
                let ghost before = out@;
                out.push(updated);
                proof {
                    reveal_strlit("hops");
                    assert(self.is_first_parent(j));
                    assert(hops.0.0 <= u64::MAX);
                    assert(updated.spec_value() == decimal(hops_of(self.spec_elements()[j]) as nat));
                    assert(updated.spec_var_name() =~= seq!['h', 'o', 'p', 's']);
                    assert(self.is_hops_param(updated));
                    assert forall|k: int| 0 <= k < i + 1 implies #[trigger] hops_param_at(*self, vars@, out@, k) by {
                        if k < i {
                            assert(out@[k] == before[k]);
                            assert(hops_param_at(*self, vars@, before, k));
                        } else {
                            assert(out@[k] == updated);
                            assert(vars@[k] == *var);
                        }
                    }
                }
            } else {
                return Err(TraphError::Gvm { func_name: "get_params", var_name: var.get_var_name().clone() });
            }
            i = i + 1;
        }
        proof {
            assert(i == vars@.len());
            assert(vars@.len() > 0 ==> self.has_parent());
            assert forall|k: int| 0 <= k < vars@.len() implies (#[trigger] vars@[k]).spec_var_name() == seq![
                'h',
                'o',
                'p',
                's',
            ] && self.is_hops_param(out@[k]) by {
                assert(hops_param_at(*self, vars@, out@, k));
            }
        }
        Ok(out)
    }
}

/// The variable at the position is `hops` and its value is the parent's hop count.
pub open spec fn hops_param_at(t: Traph, vars: Seq<GvmVariable>, out: Seq<GvmVariable>, k: int) -> bool {
    vars[k].spec_var_name() == seq!['h', 'o', 'p', 's'] && t.is_hops_param(out[k])
}

/// The UUID without its root port number.
pub open spec fn strip_port(u: Uuid) -> Uuid {
    Uuid::spec_from_parts(u.spec_code(), 0, u.spec_rest())
}

/// The routing entry of the stacked tree filed under the UUID.
pub open spec fn old_entry_of(s: Seq<(Uuid, Tree)>, u: Uuid) -> RoutingTableEntry {
    s[choose|i: int| 0 <= i < s.len() && s[i].0 == u].1.spec_entry()
}

proof fn lemma_old_entry_of(s: Seq<(Uuid, Tree)>, u: Uuid, i: int)
    requires
        distinct_keys(s),
        0 <= i < s.len(),
        s[i].0 == u,
    ensures
        old_entry_of(s, u) == s[i].1.spec_entry(),
{
    let j = choose|j: int| 0 <= j < s.len() && s[j].0 == u;
    if j != i {
        if j < i {
            assert(s[j].0 != s[i].0);
        } else {
            assert(s[i].0 != s[j].0);
        }
    }
}

/// The outcome of updating the port tree with key `k`: on success its entry
/// is updated and returned and the others are kept; otherwise nothing changes
/// and the error names the function and the UUID.
/// What `set_tree_entry` makes of a traph and returns: the entry of the
/// stacked tree filed under the UUID replaced, or an error when there is none.
pub open spec fn entry_set(before: Traph, after: Traph, tree_uuid: Uuid, entry: RoutingTableEntry, r: Result<(), TraphError>) -> bool {
    &&& after.wf()
    &&& before.same_but_stacked(&after)
    &&& before.has_stacked(tree_uuid) ==> r is Ok && exists|i: int|
        0 <= i < before.spec_stacked().len() && before.spec_stacked()[i].0 == tree_uuid && after.spec_stacked().len()
            == before.spec_stacked().len() && after.spec_stacked()[i].0 == tree_uuid && before.spec_stacked()[i].1.with_entry(
            &after.spec_stacked()[i].1,
            entry,
        ) && forall|k: int|
            0 <= k < before.spec_stacked().len() && k != i ==> after.spec_stacked()[k] == before.spec_stacked()[k]
    &&& !before.has_stacked(tree_uuid) ==> (r matches Err(TraphError::Tree { func_name, cell_id, tree_uuid: u })
        && func_name == "set_tree_entry" && u == tree_uuid && after == before)
}

/// What `stack_tree` makes of a traph: the tree filed under its UUID,
/// replacing the one filed there, and nothing else changed.
pub open spec fn tree_stacked(before: Traph, after: Traph, tree: Tree) -> bool {
    &&& after.wf()
    &&& before.same_but_stacked(&after)
    &&& exists|i: int| 0 <= i < after.spec_stacked().len() && after.spec_stacked()[i] == (tree.spec_uuid(), tree)
    &&& before.has_stacked(tree.spec_uuid()) ==> exists|i: int|
        0 <= i < before.spec_stacked().len() && before.spec_stacked()[i].0 == tree.spec_uuid()
            && after.spec_stacked() == before.spec_stacked().update(i, (tree.spec_uuid(), tree))
    &&& !before.has_stacked(tree.spec_uuid()) ==> after.spec_stacked() == before.spec_stacked().push((tree.spec_uuid(), tree))
}

/// What `add_port_tree` makes of a traph and returns: the port tree is
/// filed, replacing one with the same id; the traph's port tree id is set
/// if it was not, and returned.
pub open spec fn port_tree_added(before: Traph, after: Traph, port_tree: PortTree, id: TreeID) -> bool {
    &&& after.wf()
    &&& before.spec_port_tree_id() is None ==> after.spec_port_tree_id() == Some(port_tree.spec_port_tree_id())
    &&& before.spec_port_tree_id() is Some ==> after.spec_port_tree_id() == before.spec_port_tree_id()
    &&& after.spec_port_tree_id() == Some(id)
    &&& before.has_port_tree(key(port_tree.spec_port_tree_id())) ==> exists|i: int|
        0 <= i < before.spec_port_trees().len() && key(before.spec_port_trees()[i].spec_port_tree_id()) == key(
            port_tree.spec_port_tree_id(),
        ) && after.spec_port_trees() == before.spec_port_trees().update(i, port_tree)
    &&& !before.has_port_tree(key(port_tree.spec_port_tree_id())) ==> after.spec_port_trees()
        == before.spec_port_trees().push(port_tree)
    &&& after.spec_stacked() == before.spec_stacked()
    &&& after.spec_elements() == before.spec_elements()
    &&& after.spec_tried() == before.spec_tried()
    &&& after.spec_cell_id() == before.spec_cell_id()
    &&& after.spec_base_tree_id() == before.spec_base_tree_id()
}

/// What `file_port_entry` makes of a traph and returns: the entry of the
/// tree filed under the tree id without its root port, marked in use, with
/// the port as parent when the port is the parent, and with the children
/// added, filed under the tree id; nothing else changes.
pub open spec fn entry_filed(
    before: Traph,
    after: Traph,
    tree_id: TreeID,
    port_number: PortNumber,
    port_status: PortState,
    children: Seq<PortNumber>,
    e: RoutingTableEntry,
) -> bool {
    let old_entry = old_entry_of(before.spec_stacked(), strip_port(tree_id.spec_uuid()));
    &&& e.spec_uuid() == tree_id.spec_uuid()
    &&& e.spec_inuse()
    &&& e.spec_parent() == if port_status == PortState::Parent {
        port_number.port_no
    } else {
        old_entry.spec_parent()
    }
    &&& e.spec_may_send() == old_entry.spec_may_send()
    &&& forall|i: u16|
        i < 16 ==> (port_bit(e.spec_mask(), i) <==> (port_bit(old_entry.spec_mask(), i) || exists|k: int|
            0 <= k < children.len() && (#[trigger] children[k]).port_no.0 % 16 == i))
    &&& after.has_stacked(tree_id.spec_uuid())
    &&& exists|i: int|
        0 <= i < after.spec_stacked().len() && after.spec_stacked()[i].0 == tree_id.spec_uuid()
            && after.spec_stacked()[i].1.spec_entry() == e
    &&& after.wf()
    &&& before.same_but_stacked(&after)
}

/// What `update_element` makes of a traph and returns, when the tree's
/// stacked tree is there: the entry gains the children (and the parent
/// port, for a parent), is marked in use and is filed under the tree id;
/// the port's element becomes a connected one in the given state.
pub open spec fn element_updated(
    before: Traph,
    after: Traph,
    tree_id: TreeID,
    port_number: PortNumber,
    port_status: PortState,
    children: Seq<PortNumber>,
    hops: PathLength,
    path: Path,
    e: RoutingTableEntry,
) -> bool {
    let old_entry = old_entry_of(before.spec_stacked(), strip_port(tree_id.spec_uuid()));
    &&& e.spec_uuid() == tree_id.spec_uuid()
    &&& e.spec_inuse()
    &&& e.spec_parent() == if port_status == PortState::Parent {
        port_number.port_no
    } else {
        old_entry.spec_parent()
    }
    &&& e.spec_may_send() == old_entry.spec_may_send()
    &&& forall|i: u16|
        i < 16 ==> (port_bit(e.spec_mask(), i) <==> (port_bit(old_entry.spec_mask(), i) || exists|k: int|
            0 <= k < children.len() && (#[trigger] children[k]).port_no.0 % 16 == i))
    &&& after.has_stacked(tree_id.spec_uuid())
    &&& exists|i: int|
        0 <= i < after.spec_stacked().len() && after.spec_stacked()[i].0 == tree_id.spec_uuid()
            && after.spec_stacked()[i].1.spec_entry() == e
    &&& after.spec_elements() == before.spec_elements().update(
        port_number.port_no.0 as int,
        after.spec_elements()[port_number.port_no.0 as int],
    )
    &&& after.spec_elements()[port_number.port_no.0 as int].is(port_number.port_no, true, false, port_status, hops, path)
    &&& after.wf()
    &&& after.spec_cell_id() == before.spec_cell_id()
    &&& after.spec_base_tree_id() == before.spec_base_tree_id()
    &&& after.spec_port_tree_id() == before.spec_port_tree_id()
    &&& after.spec_port_trees() == before.spec_port_trees()
    &&& after.spec_tried() == before.spec_tried()
}

pub open spec fn self_port_tree_update(before: Seq<PortTree>, after: Seq<PortTree>, k: (Seq<char>, Uuid),
    op: ChildUpdate, child: u8, r: Result<RoutingTableEntry, TraphError>, func_name: &'static str, err_uuid: Uuid) -> bool {
    if exists|i: int| 0 <= i < before.len() && key((#[trigger] before[i]).spec_port_tree_id()) == k {
        exists|i: int|
            0 <= i < before.len() && key(before[i].spec_port_tree_id()) == k && after.len() == before.len()
                && port_tree_updated(before[i], after[i], op, child) && r == Ok::<RoutingTableEntry, TraphError>(
                after[i].spec_entry(),
            ) && forall|j: int| 0 <= j < before.len() && j != i ==> after[j] == before[j]
    } else {
        &&& after == before
        &&& r matches Err(TraphError::Tree { func_name: f, cell_id, tree_uuid }) && f == func_name && tree_uuid == err_uuid
    }
}

/// Updating a port tree keeps every port tree's id.
proof fn lemma_port_tree_update_keeps_ids(before: Seq<PortTree>, after: Seq<PortTree>, k: (Seq<char>, Uuid),
    op: ChildUpdate, child: u8, r: Result<RoutingTableEntry, TraphError>, func_name: &'static str, err_uuid: Uuid)
    requires
        self_port_tree_update(before, after, k, op, child, r, func_name, err_uuid),
    ensures
        after.len() == before.len(),
        forall|j: int| 0 <= j < before.len() ==> (#[trigger] after[j]).spec_port_tree_id() == before[j].spec_port_tree_id(),
{
    if exists|i: int| 0 <= i < before.len() && key((#[trigger] before[i]).spec_port_tree_id()) == k {
        let i = choose|i: int|
            0 <= i < before.len() && key(before[i].spec_port_tree_id()) == k && after.len() == before.len()
                && port_tree_updated(before[i], after[i], op, child) && r == Ok::<RoutingTableEntry, TraphError>(
                after[i].spec_entry(),
            ) && forall|j: int| 0 <= j < before.len() && j != i ==> after[j] == before[j];
        assert forall|j: int| 0 <= j < before.len() implies (#[trigger] after[j]).spec_port_tree_id()
            == before[j].spec_port_tree_id() by {
            if j != i {
                assert(after[j] == before[j]);
            }
        }
    }
}

/// What adding or removing a child in a traph does.
pub open spec fn update_outcome(before: Traph, after: Traph, op: ChildUpdate, port_tree_id: TreeID,
    child: PortNumber, r: Result<Vec<RoutingTableEntry>, TraphError>) -> bool {
    let tree_key = (port_tree_id.spec_name(), strip_port(port_tree_id.spec_uuid()));
    &&& after.spec_elements() == before.spec_elements()
    &&& after.spec_tried() == before.spec_tried()
    &&& after.spec_cell_id() == before.spec_cell_id()
    &&& !before.has_port_tree(tree_key) ==> (r matches Err(TraphError::Chain { func_name, comment })
        && func_name == "add_or_remove_child" && after.spec_port_trees() == before.spec_port_trees()
        && after.spec_stacked() == before.spec_stacked())
    &&& r is Ok ==> before.has_port_tree(tree_key) && before.has_port_tree(key(port_tree_id))
    &&& before.has_port_tree(tree_key) && before.has_port_tree(key(port_tree_id)) ==> r is Ok
    &&& r matches Ok(v) ==> v@.len() == before.spec_stacked().len() + 2 && stacked_updated(
        before.spec_stacked(),
        after.spec_stacked(),
        v@,
        op,
        child.port_no.0,
    )
}

proof fn lemma_stacked_updated_extend(before: Seq<(Uuid, Tree)>, after: Seq<(Uuid, Tree)>, v: Seq<RoutingTableEntry>,
    w: Seq<RoutingTableEntry>, op: ChildUpdate, child: u8)
    requires
        stacked_updated(before, after, v, op, child),
        v.len() <= w.len(),
        forall|k: int| 0 <= k < v.len() ==> w[k] == v[k],
        v.len() == before.len(),
    ensures
        stacked_updated(before, after, w, op, child),
{
    assert forall|k: int| 0 <= k < before.len() implies (#[trigger] after[k]).0 == before[k].0 && tree_updated(
        before[k].1,
        after[k].1,
        op,
        child,
    ) && w[k] == after[k].1.spec_entry() by {
        assert(w[k] == v[k]);
    }
}

/// Every stacked tree has its entry updated, in order, and the entries
/// begin with the new entries.
pub open spec fn stacked_updated(before: Seq<(Uuid, Tree)>, after: Seq<(Uuid, Tree)>, v: Seq<RoutingTableEntry>,
    op: ChildUpdate, child: u8) -> bool {
    &&& after.len() == before.len()
    &&& forall|k: int|
        0 <= k < before.len() ==> (#[trigger] after[k]).0 == before[k].0 && tree_updated(before[k].1, after[k].1, op, child)
            && v[k] == after[k].1.spec_entry()
}

impl Traph {
    /// Everything the same, the stacked trees as copies.
    pub open spec fn copied_from(&self, other: &Traph) -> bool {
        &&& self.spec_cell_id() == other.spec_cell_id()
        &&& self.spec_base_tree_id() == other.spec_base_tree_id()
        &&& self.spec_port_tree_id() == other.spec_port_tree_id()
        &&& self.spec_port_trees() == other.spec_port_trees()
        &&& self.spec_elements() == other.spec_elements()
        &&& self.spec_tried() == other.spec_tried()
        &&& self.spec_stacked().len() == other.spec_stacked().len()
        &&& forall|i: int|
            0 <= i < self.spec_stacked().len() ==> (#[trigger] self.spec_stacked()[i]).0 == other.spec_stacked()[i].0
                && self.spec_stacked()[i].1.same_as(&other.spec_stacked()[i].1)
    }
}

impl Clone for Traph {
    fn clone(&self) -> (r: Self)
        ensures
            r.copied_from(self),
            self.wf() ==> r.wf(),
    {
        let port_tree_id = match &self.port_tree_id {
            Some(t) => Some(t.clone()),
            None => None,
        };
        let mut port_trees: Vec<PortTree> = Vec::new();
        let mut i: usize = 0;
        while i < self.port_trees.len()
            invariant
                i <= self.port_trees@.len(),
                port_trees@ == self.port_trees@.take(i as int),
            decreases self.port_trees@.len() - i,
        {
            port_trees.push(self.port_trees[i].clone());
            assert(port_trees@ =~= self.port_trees@.take(i + 1));
            i = i + 1;
        }
        assert(self.port_trees@.take(self.port_trees@.len() as int) =~= self.port_trees@);
        let mut stacked_trees: Vec<(Uuid, Tree)> = Vec::new();
        let mut j: usize = 0;
        while j < self.stacked_trees.len()
            invariant
                j <= self.stacked_trees@.len(),
                stacked_trees@.len() == j,
                forall|k: int|
                    0 <= k < j ==> (#[trigger] stacked_trees@[k]).0 == self.stacked_trees@[k].0
                        && stacked_trees@[k].1.same_as(&self.stacked_trees@[k].1),
            decreases self.stacked_trees@.len() - j,
        {
            let k = self.stacked_trees[j].0;
            let t = self.stacked_trees[j].1.clone();
            stacked_trees.push((k, t));
            j = j + 1;
        }
        let mut elements: Vec<TraphElement> = Vec::new();
        let mut m: usize = 0;
        while m < self.elements.len()
            invariant
                m <= self.elements@.len(),
                elements@ == self.elements@.take(m as int),
            decreases self.elements@.len() - m,
        {
            elements.push(self.elements[m]);
            assert(elements@ =~= self.elements@.take(m + 1));
            m = m + 1;
        }
        assert(self.elements@.take(self.elements@.len() as int) =~= self.elements@);
        let mut tried_ports: Vec<(TreeID, PortNo)> = Vec::new();
        let mut n: usize = 0;
        while n < self.tried_ports.len()
            invariant
                n <= self.tried_ports@.len(),
                tried_ports@ == self.tried_ports@.take(n as int),
            decreases self.tried_ports@.len() - n,
        {
            tried_ports.push((self.tried_ports[n].0.clone(), self.tried_ports[n].1));
            assert(tried_ports@ =~= self.tried_ports@.take(n + 1));
            n = n + 1;
        }
        assert(self.tried_ports@.take(self.tried_ports@.len() as int) =~= self.tried_ports@);
        Traph {
            cell_id: self.cell_id.clone(),
            base_tree_id: self.base_tree_id.clone(),
            port_tree_id,
            port_trees,
            stacked_trees,
            elements,
            tried_ports,
        }
    }
}

/// What a search for a new parent of a tree does: among the usable parent,
/// the best pruned and the first child element, the one with the fewest hops
/// is picked, its port returned and recorded as tried for the tree; where
/// there is none, nothing is returned and nothing recorded.
pub open spec fn new_parent_found(a: Traph, b: Traph, rw: TreeID, broken_path: Path, r: Option<PortNo>) -> bool {
    &&& exists|p1: Option<TraphElement>, p2: Option<TraphElement>, p3: Option<TraphElement>|
        #![trigger fewer_hops(fewer_hops(p1, p2), p3)]
        {
            &&& a.parent_candidate(p1, key(rw), broken_path)
            &&& a.pruned_candidate(p2, key(rw), broken_path)
            &&& a.child_candidate(p3, key(rw))
            &&& match fewer_hops(fewer_hops(p1, p2), p3) {
                None => r is None && b.spec_tried() == a.spec_tried(),
                Some(e) => r == Some(e.spec_port_no()) && forall|k: (Seq<char>, Uuid), p: PortNo|
                    was_tried(b.spec_tried(), k, p) <==> (was_tried(a.spec_tried(), k, p) || (k == key(rw) && p
                        == e.spec_port_no())),
            }
        }
    &&& a.same_but_tried(&b)
}

pub open spec fn is_connected_child(e: TraphElement) -> bool {
    e.spec_is_connected() && e.spec_state() == PortState::Child
}

/// The first connected child element at or before `j`.
proof fn first_connected_child(es: Seq<TraphElement>, j: int) -> (i: int)
    requires
        0 <= j < es.len(),
        is_connected_child(es[j]),
    ensures
        0 <= i <= j,
        is_connected_child(es[i]),
        forall|k: int| 0 <= k < i ==> !is_connected_child(#[trigger] es[k]),
    decreases j,
{
    if exists|k: int| 0 <= k < j && is_connected_child(#[trigger] es[k]) {
        let k = choose|k: int| 0 <= k < j && is_connected_child(#[trigger] es[k]);
        first_connected_child(es, k)
    } else {
        j
    }
}

proof fn lemma_parent_untried(t: Traph, rw: TreeID, bp: Path, c: Option<TraphElement>)
    requires
        t.parent_candidate(c, key(rw), bp),
    ensures
        c matches Some(e) ==> !was_tried(t.spec_tried(), key(rw), e.spec_port_no()),
{
    reveal(Traph::parent_candidate);
}

proof fn lemma_pruned_untried(t: Traph, rw: TreeID, bp: Path, c: Option<TraphElement>)
    requires
        t.pruned_candidate(c, key(rw), bp),
    ensures
        c matches Some(e) ==> !was_tried(t.spec_tried(), key(rw), e.spec_port_no()),
{
    reveal(Traph::pruned_candidate);
}

#[verifier::spinoff_prover]
proof fn lemma_child_untried(t: Traph, rw: TreeID, c: Option<TraphElement>)
    requires
        t.child_candidate(c, key(rw)),
    ensures
        c matches Some(e) ==> !was_tried(t.spec_tried(), key(rw), e.spec_port_no()),
{
    reveal(Traph::child_candidate);
    let es = t.spec_elements();
    if c is Some {
        if !(exists|j: int| 0 <= j < es.len() && is_connected_child(#[trigger] es[j])) {
            assert forall|k: int| 0 <= k < es.len() implies !((#[trigger] es[k]).spec_is_connected() && es[k].spec_state()
                == PortState::Child) by {
                assert(!is_connected_child(es[k]));
            }
            assert(false);
        }
        let j = choose|j: int| 0 <= j < es.len() && is_connected_child(#[trigger] es[j]);
        let i = first_connected_child(es, j);
        assert forall|k: int| 0 <= k < i implies !((#[trigger] es[k]).spec_is_connected() && es[k].spec_state()
            == PortState::Child) by {
            assert(!is_connected_child(es[k]));
        }
        assert(es[i].spec_is_connected() && es[i].spec_state() == PortState::Child);
    }
}

/// Each candidate for a new parent is on a port not yet tried for the tree.
proof fn lemma_candidates_untried(t: Traph, rw: TreeID, bp: Path, p1: Option<TraphElement>, p2: Option<TraphElement>, p3:
    Option<TraphElement>)
    requires
        t.parent_candidate(p1, key(rw), bp),
        t.pruned_candidate(p2, key(rw), bp),
        t.child_candidate(p3, key(rw)),
    ensures
        fewer_hops(fewer_hops(p1, p2), p3) matches Some(e) ==> !was_tried(t.spec_tried(), key(rw), e.spec_port_no()),
{
    lemma_parent_untried(t, rw, bp, p1);
    lemma_pruned_untried(t, rw, bp, p2);
    lemma_child_untried(t, rw, p3);
}

/// A port that a search for a new parent of a tree returned is not returned
/// by the next search for that tree: a returned port stays recorded as tried
/// until `clear_tried_ports` clears the tree's tried ports.
pub proof fn law_new_parent_not_repeated(t0: Traph, t1: Traph, t2: Traph, rw: TreeID, bp1: Path, bp2: Path, r1: Option<
    PortNo,
>, r2: Option<PortNo>)
    requires
        new_parent_found(t0, t1, rw, bp1, r1),
        new_parent_found(t1, t2, rw, bp2, r2),
        r1 is Some,
    ensures
        r2 != r1,
{
    let (a1, a2, a3) = choose|p1: Option<TraphElement>, p2: Option<TraphElement>, p3: Option<TraphElement>|
        #![trigger fewer_hops(fewer_hops(p1, p2), p3)]
        {
            &&& t0.parent_candidate(p1, key(rw), bp1)
            &&& t0.pruned_candidate(p2, key(rw), bp1)
            &&& t0.child_candidate(p3, key(rw))
            &&& match fewer_hops(fewer_hops(p1, p2), p3) {
                None => r1 is None && t1.spec_tried() == t0.spec_tried(),
                Some(e) => r1 == Some(e.spec_port_no()) && forall|k: (Seq<char>, Uuid), p: PortNo|
                    was_tried(t1.spec_tried(), k, p) <==> (was_tried(t0.spec_tried(), k, p) || (k == key(rw) && p
                        == e.spec_port_no())),
            }
        };
    let (b1, b2, b3) = choose|p1: Option<TraphElement>, p2: Option<TraphElement>, p3: Option<TraphElement>|
        #![trigger fewer_hops(fewer_hops(p1, p2), p3)]
        {
            &&& t1.parent_candidate(p1, key(rw), bp2)
            &&& t1.pruned_candidate(p2, key(rw), bp2)
            &&& t1.child_candidate(p3, key(rw))
            &&& match fewer_hops(fewer_hops(p1, p2), p3) {
                None => r2 is None && t2.spec_tried() == t1.spec_tried(),
                Some(e) => r2 == Some(e.spec_port_no()) && forall|k: (Seq<char>, Uuid), p: PortNo|
                    was_tried(t2.spec_tried(), k, p) <==> (was_tried(t1.spec_tried(), k, p) || (k == key(rw) && p
                        == e.spec_port_no())),
            }
        };
    lemma_candidates_untried(t1, rw, bp2, b1, b2, b3);
    if let Some(e) = fewer_hops(fewer_hops(a1, a2), a3) {
        assert(was_tried(t1.spec_tried(), key(rw), e.spec_port_no()));
    }
}

/// A search for a new parent of a tree never returns a port already
/// recorded as tried for that tree.
pub proof fn law_tried_port_not_returned(a: Traph, b: Traph, rw: TreeID, bp: Path, r: Option<PortNo>, port: PortNo)
    requires
        new_parent_found(a, b, rw, bp, r),
        was_tried(a.spec_tried(), key(rw), port),
    ensures
        r != Some(port),
{
    let (p1, p2, p3) = choose|p1: Option<TraphElement>, p2: Option<TraphElement>, p3: Option<TraphElement>|
        #![trigger fewer_hops(fewer_hops(p1, p2), p3)]
        {
            &&& a.parent_candidate(p1, key(rw), bp)
            &&& a.pruned_candidate(p2, key(rw), bp)
            &&& a.child_candidate(p3, key(rw))
            &&& match fewer_hops(fewer_hops(p1, p2), p3) {
                None => r is None && b.spec_tried() == a.spec_tried(),
                Some(e) => r == Some(e.spec_port_no()) && forall|k: (Seq<char>, Uuid), p: PortNo|
                    was_tried(b.spec_tried(), k, p) <==> (was_tried(a.spec_tried(), k, p) || (k == key(rw) && p
                        == e.spec_port_no())),
            }
        };
    lemma_candidates_untried(a, rw, bp, p1, p2, p3);
}

/// A search for a new parent keeps every port recorded as tried, for every
/// tree, records the port it returns as tried for the tree, and records
/// nothing when it returns none; only `clear_tried_ports` forgets a tree's
/// tried ports.
pub proof fn law_tried_ports_kept(a: Traph, b: Traph, rw: TreeID, bp: Path, r: Option<PortNo>)
    requires
        new_parent_found(a, b, rw, bp, r),
    ensures
        forall|k: (Seq<char>, Uuid), p: PortNo| was_tried(a.spec_tried(), k, p) ==> #[trigger] was_tried(b.spec_tried(), k, p),
        r matches Some(p) ==> was_tried(b.spec_tried(), key(rw), p),
        r is None ==> b.spec_tried() == a.spec_tried(),
{
}

} // verus!
