//! A routing table entry: where a tree's packets go from this cell.
use vstd::prelude::*;

use crate::config::PortNo;
use crate::name::{Name, TreeID};
use crate::utility::{lemma_mask_set_algebra, port_bit, port_mask_value, lemma_port_mask_bit, Mask, PortNumber};
use crate::uuid_ec::Uuid;

verus! {

#[derive(Debug, Copy, Clone, PartialEq, Eq, Structural)]
pub struct RoutingTableEntry {
    tree_uuid: Uuid,
    may_send: bool,
    inuse: bool,
    parent: PortNo,
    mask: Mask,
}

impl RoutingTableEntry {
    pub closed spec fn spec_uuid(&self) -> Uuid {
        self.tree_uuid
    }

    pub closed spec fn spec_may_send(&self) -> bool {
        self.may_send
    }

    pub closed spec fn spec_inuse(&self) -> bool {
        self.inuse
    }

    pub closed spec fn spec_parent(&self) -> PortNo {
        self.parent
    }

    pub closed spec fn spec_mask(&self) -> u16 {
        self.mask@
    }

    /// The entry is equal to one built from these parts.
    pub open spec fn is(&self, uuid: Uuid, inuse: bool, parent: PortNo, mask: u16, may_send: bool) -> bool {
        &&& self.spec_uuid() == uuid
        &&& self.spec_inuse() == inuse
        &&& self.spec_parent() == parent
        &&& self.spec_mask() == mask
        &&& self.spec_may_send() == may_send
    }

    /// The same entry with another mask.
    pub open spec fn with_mask(&self, other: RoutingTableEntry, mask: u16) -> bool {
        other.is(self.spec_uuid(), self.spec_inuse(), self.spec_parent(), mask, self.spec_may_send())
    }

    /// Whether the entry sends to the port.
    pub open spec fn spec_has_child(&self, port_no: u8) -> bool {
        self.spec_mask() & port_mask_value(port_no) != 0
    }

    pub fn new(port_tree_id: &TreeID, inuse: bool, parent: PortNumber, mask: Mask, may_send: bool) -> (e: RoutingTableEntry)
        ensures
            e.is(port_tree_id.spec_uuid(), inuse, parent.port_no, mask@, may_send),
    {
        RoutingTableEntry { tree_uuid: port_tree_id.get_uuid(), parent: parent.get_port_no(), may_send, inuse, mask }
    }

    /// An unused entry for a tree named `default`, parent port 0, no children, may send.
    pub fn default() -> (e: RoutingTableEntry)
        ensures
            e.spec_inuse() == false,
            e.spec_parent() == PortNo(0),
            e.spec_mask() == 0,
            e.spec_may_send() == true,
    {
        let port_number = PortNumber::new0();
        proof {
            reveal_strlit("default");
        }
        let tree_id = match TreeID::new("default") {
            Ok(t) => t,
            Err(_) => TreeID::default(),
        };
        let port_tree_id = tree_id.with_root_port_number(&port_number);
        RoutingTableEntry::new(&port_tree_id, false, port_number, Mask::empty(), true)
    }

    pub fn is_in_use(&self) -> (b: bool)
        ensures
            b == self.spec_inuse(),
    {
        self.inuse
    }

    pub fn may_send(&self) -> (b: bool)
        ensures
            b == self.spec_may_send(),
    {
        self.may_send
    }

    pub fn enable_send(&mut self)
        ensures
            final(self).is(old(self).spec_uuid(), old(self).spec_inuse(), old(self).spec_parent(),
                old(self).spec_mask(), true),
    {
        self.may_send = true;
    }

    pub fn disable_send(&mut self)
        ensures
            final(self).is(old(self).spec_uuid(), old(self).spec_inuse(), old(self).spec_parent(),
                old(self).spec_mask(), false),
    {
        self.may_send = false;
    }

    pub fn get_uuid(&self) -> (u: Uuid)
        ensures
            u == self.spec_uuid(),
    {
        self.tree_uuid
    }

    pub fn set_uuid(&mut self, uuid: &Uuid)
        ensures
            final(self).is(*uuid, old(self).spec_inuse(), old(self).spec_parent(), old(self).spec_mask(),
                old(self).spec_may_send()),
    {
        self.tree_uuid = *uuid;
    }

    pub fn or_with_mask(&mut self, mask: Mask)
        ensures
            old(self).with_mask(*final(self), old(self).spec_mask() | mask@),
    {
        self.mask = self.mask.or(mask);
    }

    pub fn and_with_mask(&mut self, mask: Mask)
        ensures
            old(self).with_mask(*final(self), old(self).spec_mask() & mask@),
    {
        self.mask = self.mask.and(mask);
    }

    pub fn set_inuse(&mut self)
        ensures
            final(self).is(old(self).spec_uuid(), true, old(self).spec_parent(), old(self).spec_mask(),
                old(self).spec_may_send()),
    {
        self.inuse = true;
    }

    pub fn get_parent(&self) -> (p: PortNo)
        ensures
            p == self.spec_parent(),
    {
        self.parent
    }

    pub fn get_mask(&self) -> (m: Mask)
        ensures
            m@ == self.spec_mask(),
    {
        self.mask
    }

    pub fn set_mask(&mut self, mask: Mask)
        ensures
            old(self).with_mask(*final(self), mask@),
    {
        self.mask = mask;
    }

    pub fn set_tree_id(&mut self, port_tree_id: &TreeID)
        ensures
            final(self).is(port_tree_id.spec_uuid(), old(self).spec_inuse(), old(self).spec_parent(),
                old(self).spec_mask(), old(self).spec_may_send()),
    {
        self.tree_uuid = port_tree_id.get_uuid();
    }

    /// Adds the given ports as children.
    pub fn add_children(&mut self, children: &Vec<PortNumber>)
        ensures
            final(self).spec_uuid() == old(self).spec_uuid(),
            final(self).spec_inuse() == old(self).spec_inuse(),
            final(self).spec_parent() == old(self).spec_parent(),
            final(self).spec_may_send() == old(self).spec_may_send(),
            forall|i: u16|
                i < 16 ==> (port_bit(final(self).spec_mask(), i) <==> (port_bit(old(self).spec_mask(), i)
                    || exists|k: int|
                    0 <= k < children@.len() && (#[trigger] children@[k]).port_no.0 % 16 == i)),
    {
        let mask = Mask::make(children);
        let ghost before = self.spec_mask();
        self.or_with_mask(mask);
        assert forall|i: u16| i < 16 implies (port_bit(self.spec_mask(), i) <==> (port_bit(before, i)
            || exists|k: int|
            0 <= k < children@.len() && (#[trigger] children@[k]).port_no.0 % 16 == i)) by {
            lemma_mask_set_algebra(before, mask@, i);
        }
    }

    /// Adds a child port; returns the updated entry.
    pub fn add_child(&mut self, child: PortNumber) -> (e: RoutingTableEntry)
        ensures
            old(self).with_mask(*final(self), old(self).spec_mask() | port_mask_value(child.port_no.0)),
            e == *final(self),
    {
        let mask = Mask::new(child);
        self.or_with_mask(mask);
        *self
    }

    /// Removes a child port; returns the updated entry.
    pub fn remove_child(&mut self, port_number: PortNumber) -> (e: RoutingTableEntry)
        ensures
            old(self).with_mask(*final(self), old(self).spec_mask() & !port_mask_value(port_number.port_no.0)),
            e == *final(self),
    {
        let mask = Mask::new(port_number).not();
        self.and_with_mask(mask);
        *self
    }

    /// Keeps only port 0; returns the updated entry.
    pub fn clear_children(&mut self) -> (e: RoutingTableEntry)
        ensures
            old(self).with_mask(*final(self), old(self).spec_mask() & 1u16),
            e == *final(self),
    {
        self.and_with_mask(Mask::port0());
        *self
    }

    pub fn set_parent(&mut self, port_number: PortNumber) -> (e: RoutingTableEntry)
        ensures
            final(self).is(old(self).spec_uuid(), old(self).spec_inuse(), port_number.port_no,
                old(self).spec_mask(), old(self).spec_may_send()),
            e == *final(self),
    {
        self.parent = port_number.get_port_no();
        *self
    }

    pub fn has_child(&self, port_number: PortNumber) -> (b: bool)
        ensures
            b == self.spec_has_child(port_number.port_no.0),
    {
        !self.get_mask().and(Mask::new(port_number)).equal(Mask::empty())
    }
}

/// After a port is added as a child the entry has it as a child; after it is
/// removed the entry does not; other ports' membership is untouched by both.
pub proof fn lemma_child_add_remove(mask: u16, p: u8, q: u8)
    ensures
        (mask | port_mask_value(p)) & port_mask_value(p) != 0,
        (mask & !port_mask_value(p)) & port_mask_value(p) == 0,
        p % 16 != q % 16 ==> (((mask | port_mask_value(p)) & port_mask_value(q) != 0) <==> (mask
            & port_mask_value(q) != 0)),
        p % 16 != q % 16 ==> (((mask & !port_mask_value(p)) & port_mask_value(q) != 0) <==> (mask
            & port_mask_value(q) != 0)),
{
    let a = (p % 16) as u16;
    let b = (q % 16) as u16;
    assert(port_mask_value(p) == 1u16 << a);
    assert(port_mask_value(q) == 1u16 << b);
    assert((mask | (1u16 << a)) & (1u16 << a) != 0) by (bit_vector)
        requires
            a < 16,
    ;
    assert((mask & !(1u16 << a)) & (1u16 << a) == 0) by (bit_vector)
        requires
            a < 16,
    ;
    assert(a != b ==> (((mask | (1u16 << a)) & (1u16 << b) != 0) <==> (mask & (1u16 << b) != 0))) by (bit_vector)
        requires
            a < 16,
            b < 16,
    ;
    assert(a != b ==> (((mask & !(1u16 << a)) & (1u16 << b) != 0) <==> (mask & (1u16 << b) != 0))) by (bit_vector)
        requires
            a < 16,
            b < 16,
    ;
}

} // verus!
