//! One port's entry in a traph: how the port relates to the tree.
use vstd::prelude::*;

use crate::config::{CellQty, PathLength, PortNo};
use crate::traph::PortState;
use crate::utility::{Path, PortNumber};

verus! {

#[derive(Debug, Copy, Clone, PartialEq, Eq, Structural)]
pub struct TraphElement {
    port_no: PortNo,
    is_connected: bool,
    is_broken: bool,
    state: PortState,
    hops: PathLength,
    path: Path,
}

impl TraphElement {
    pub closed spec fn spec_port_no(&self) -> PortNo {
        self.port_no
    }

    pub closed spec fn spec_is_connected(&self) -> bool {
        self.is_connected
    }

    pub closed spec fn spec_is_broken(&self) -> bool {
        self.is_broken
    }

    pub closed spec fn spec_state(&self) -> PortState {
        self.state
    }

    pub closed spec fn spec_hops(&self) -> PathLength {
        self.hops
    }

    pub closed spec fn spec_path(&self) -> Path {
        self.path
    }

    /// The element is equal to one built from these parts.
    pub open spec fn is(&self, port_no: PortNo, is_connected: bool, is_broken: bool, state: PortState,
        hops: PathLength, path: Path) -> bool {
        &&& self.spec_port_no() == port_no
        &&& self.spec_is_connected() == is_connected
        &&& self.spec_is_broken() == is_broken
        &&& self.spec_state() == state
        &&& self.spec_hops() == hops
        &&& self.spec_path() == path
    }

    /// The element with another state.
    pub open spec fn with_state(&self, other: TraphElement, state: PortState) -> bool {
        other.is(self.spec_port_no(), self.spec_is_connected(), self.spec_is_broken(), state,
            self.spec_hops(), self.spec_path())
    }

    /// A new element, not broken.
    pub fn new(is_connected: bool, port_no: PortNo, status: PortState, hops: PathLength, path: Path) -> (e: TraphElement)
        ensures
            e.is(port_no, is_connected, false, status, hops, path),
    {
        TraphElement { port_no, is_connected, is_broken: false, state: status, hops, path }
    }

    /// The element of an unconnected port in an unknown state, zero hops from the root.
    pub fn default(port_number: PortNumber) -> (e: TraphElement)
        ensures
            e.is(port_number.port_no, false, false, PortState::Unknown, PathLength(CellQty(0)), Path::spec_new0()),
    {
        let port_no = port_number.get_port_no();
        TraphElement::new(false, port_no, PortState::Unknown, PathLength(CellQty(0)), Path::new0())
    }

    pub fn get_port_no(&self) -> (p: PortNo)
        ensures
            p == self.spec_port_no(),
    {
        self.port_no
    }

    pub fn get_hops(&self) -> (h: PathLength)
        ensures
            h == self.spec_hops(),
    {
        self.hops
    }

    pub fn hops_plus_one(&self) -> (h: PathLength)
        requires
            self.spec_hops().0.0 < usize::MAX,
        ensures
            h.0.0 == self.spec_hops().0.0 + 1,
    {
        PathLength(CellQty(self.hops.0.0 + 1))
    }

    pub fn get_path(&self) -> (p: Path)
        ensures
            p == self.spec_path(),
    {
        self.path
    }

    pub fn get_state(&self) -> (s: PortState)
        ensures
            s == self.spec_state(),
    {
        self.state
    }

    pub fn is_state(&self, state: PortState) -> (b: bool)
        ensures
            b == (self.spec_state() == state),
    {
        self.state == state
    }

    pub fn is_connected(&self) -> (b: bool)
        ensures
            b == self.spec_is_connected(),
    {
        self.is_connected
    }

    pub fn is_broken(&self) -> (b: bool)
        ensures
            b == self.spec_is_broken(),
    {
        self.is_broken
    }

    pub fn set_broken(&mut self)
        ensures
            final(self).is(old(self).spec_port_no(), old(self).spec_is_connected(), true,
                old(self).spec_state(), old(self).spec_hops(), old(self).spec_path()),
    {
        self.is_broken = true;
    }

    pub fn set_connected(&mut self)
        ensures
            final(self).is(old(self).spec_port_no(), true, old(self).spec_is_broken(),
                old(self).spec_state(), old(self).spec_hops(), old(self).spec_path()),
    {
        self.is_connected = true;
    }

    fn set_state(&mut self, state: PortState)
        ensures
            old(self).with_state(*final(self), state),
    {
        self.state = state;
    }

    /// Whether this element's path is the broken one.
    pub fn is_on_broken_path(&self, broken_path: Path) -> (b: bool)
        ensures
            b == (self.spec_path() == broken_path),
    {
        self.path == broken_path
    }

    pub fn mark_parent(&mut self)
        ensures
            old(self).with_state(*final(self), PortState::Parent),
    {
        self.set_state(PortState::Parent)
    }

    pub fn mark_child(&mut self)
        ensures
            old(self).with_state(*final(self), PortState::Child),
    {
        self.set_state(PortState::Child)
    }

    pub fn mark_pruned(&mut self)
        ensures
            old(self).with_state(*final(self), PortState::Pruned),
    {
        self.set_state(PortState::Pruned)
    }

    pub fn mark_broken(&mut self)
        ensures
            old(self).with_state(*final(self), PortState::Broken),
    {
        self.set_state(PortState::Broken)
    }
}

} // verus!
