//! A port: what it does with a status or a packet from its link, and with a
//! packet from the packet engine. The channels and threads that carry these
//! belong to the program around it.
use vstd::prelude::*;

use crate::config::PortNo;
use crate::ec_message_formats::{LinkToPortPacket, PeToPortPacket, PortToPePacket};
use crate::name::{CellID, Name, PortID};
use crate::packet::{same_contents, Packet};
use crate::utility::PortNumber;
use crate::uuid_ec::{ait_step, ait_stepped, with_code, AitState, UuidError, AIT};

verus! {

/// Whether a port is connected to a link.
#[derive(Debug, Copy, Clone, PartialEq, Eq, Structural, Hash)]
pub enum PortStatus {
    Connected,
    Disconnected,
}

#[derive(Debug)]
pub enum PortError {
    Ait { func_name: &'static str, ait_state: AitState },
    Chain { func_name: &'static str, comment: String },
    NonApp { func_name: &'static str, port_no: u8 },
    App { func_name: &'static str, port_no: u8 },
    Uuid { func_name: &'static str, error: UuidError },
}

/// What a port hands on: to the packet engine or back to its link.
#[derive(Debug)]
pub enum PortAction {
    ToPe(PortToPePacket),
    ToLink(Packet),
}

#[derive(Debug)]
pub struct Port {
    id: PortID,
    port_number: PortNumber,
    is_border: bool,
    is_connected: bool,
}

/// `q` is `p` one step on in the AIT state machine.
pub open spec fn stepped_packet(p: Packet, q: Packet) -> bool {
    &&& exists|s: AitState| ait_stepped(p.spec_uuid(), q.spec_uuid(), Ok::<AitState, UuidError>(s))
    &&& same_contents(q, p)
}

/// `q` is `p` with its tree UUID marked AIT.
pub open spec fn ait_send_packet(p: Packet, q: Packet) -> bool {
    &&& q.spec_uuid().spec_code() == with_code(p.spec_uuid().spec_code(), AIT)
    &&& q.spec_uuid().spec_port_byte() == p.spec_uuid().spec_port_byte()
    &&& q.spec_uuid().spec_rest() == p.spec_uuid().spec_rest()
    &&& same_contents(q, p)
}

/// The error for a packet whose AIT state has no next one.
pub open spec fn step_error(p: Packet, func_name: &'static str, r: Result<Vec<PortAction>, PortError>) -> bool {
    r matches Err(PortError::Uuid { func_name: f, error }) && f == func_name && ait_stepped(
        p.spec_uuid(),
        p.spec_uuid(),
        Err::<AitState, UuidError>(error),
    )
}

impl Port {
    pub closed spec fn spec_id(&self) -> PortID {
        self.id
    }

    pub closed spec fn spec_port_no(&self) -> PortNo {
        self.port_number.port_no
    }

    pub closed spec fn spec_is_border(&self) -> bool {
        self.is_border
    }

    pub closed spec fn spec_is_connected(&self) -> bool {
        self.is_connected
    }

    pub fn new(cell_id: CellID, port_number: PortNumber, is_border: bool, is_connected: bool) -> (r: Result<Port, PortError>)
        ensures
            r matches Ok(p) && p.spec_port_no() == port_number.port_no && p.spec_is_border() == is_border
                && p.spec_is_connected() == is_connected && p.spec_id().spec_name() == cell_id.spec_name() + seq![
                '+',
                'P',
                ':',
            ] + crate::text::decimal(port_number.port_no.0 as nat),
    {
        match PortID::new(&cell_id, port_number) {
            Ok(id) => Ok(Port { id, port_number, is_border, is_connected }),
            Err(_) => Err(PortError::Chain { func_name: "new", comment: String::new() }),
        }
    }

    pub fn get_id(&self) -> (id: &PortID)
        ensures
            *id == self.spec_id(),
    {
        &self.id
    }

    pub fn get_port_no(&self) -> (p: PortNo)
        ensures
            p == self.spec_port_no(),
    {
        self.port_number.get_port_no()
    }

    pub fn is_connected(&self) -> (b: bool)
        ensures
            b == self.spec_is_connected(),
    {
        self.is_connected
    }

    pub fn set_connected(&mut self)
        ensures
            final(self).spec_is_connected(),
            final(self).spec_id() == old(self).spec_id(),
            final(self).spec_port_no() == old(self).spec_port_no(),
            final(self).spec_is_border() == old(self).spec_is_border(),
    {
        self.is_connected = true;
    }

    pub fn set_disconnected(&mut self)
        ensures
            !final(self).spec_is_connected(),
            final(self).spec_id() == old(self).spec_id(),
            final(self).spec_port_no() == old(self).spec_port_no(),
            final(self).spec_is_border() == old(self).spec_is_border(),
    {
        self.is_connected = false;
    }

    pub fn is_border(&self) -> (b: bool)
        ensures
            b == self.spec_is_border(),
    {
        self.is_border
    }

    /// A status or a packet from the link. A status sets whether the port is
    /// connected and goes to the packet engine. A packet goes by its AIT
    /// state: an AIT packet is refused; a tick is dropped; a normal packet
    /// goes to the packet engine; teck and tack go back to
    /// the link one step on; tock goes back to the link one step on, and
    /// that packet, marked AIT, goes to the packet engine.
    pub fn link_step(&mut self, msg: LinkToPortPacket) -> (r: Result<Vec<PortAction>, PortError>)
        ensures
            final(self).spec_id() == old(self).spec_id(),
            final(self).spec_port_no() == old(self).spec_port_no(),
            final(self).spec_is_border() == old(self).spec_is_border(),
            match msg {
                LinkToPortPacket::Status(st) => {
                    &&& final(self).spec_is_connected() == (st == PortStatus::Connected)
                    &&& r matches Ok(v) && v@.len() == 1 && (v@[0] matches PortAction::ToPe(PortToPePacket::Status((n, b, s)))
                        && n == old(self).spec_port_no() && b == old(self).spec_is_border() && s == st)
                },
                LinkToPortPacket::Packet(p) => {
                    let port_no = old(self).spec_port_no();
                    &&& final(self).spec_is_connected() == old(self).spec_is_connected()
                    &&& match p.spec_uuid().spec_ait_state() {
                        AitState::Ait => r matches Err(PortError::Ait { func_name, ait_state })
                            && func_name == "listen_link_loop" && ait_state == p.spec_uuid().spec_ait_state(),
                        AitState::Tick => r matches Ok(v) && v@.len() == 0,
                        AitState::Normal => r matches Ok(v) && v@.len() == 1 && (v@[0] matches PortAction::ToPe(
                            PortToPePacket::Packet((n, q)),
                        ) && n == port_no && q == p),
                        AitState::Teck | AitState::Tack => match ait_step(p.spec_uuid()) {
                            None => step_error(p, "listen_link_loop", r),
                            Some(_) => r matches Ok(v) && v@.len() == 1 && (v@[0] matches PortAction::ToLink(q)
                                && stepped_packet(p, q)),
                        },
                        AitState::Tock => match ait_step(p.spec_uuid()) {
                            None => step_error(p, "listen_link_loop", r),
                            Some(_) => r matches Ok(v) && v@.len() == 2 && (v@[0] matches PortAction::ToLink(q)
                                && stepped_packet(p, q)) && (v@[1] matches PortAction::ToPe(PortToPePacket::Packet((n, q2)))
                                && n == port_no && ait_send_packet(v@[0]->ToLink_0, q2)),
                        },
                    }
                },
            },
    {
        let port_no = self.port_number.get_port_no();
        match msg {
            LinkToPortPacket::Status(status) => {
                match status {
                    PortStatus::Connected => self.set_connected(),
                    PortStatus::Disconnected => self.set_disconnected(),
                }
                let mut v: Vec<PortAction> = Vec::new();
                v.push(PortAction::ToPe(PortToPePacket::Status((port_no, self.is_border, status))));
                Ok(v)
            },
            LinkToPortPacket::Packet(mut packet) => {
                let ait_state = packet.get_ait_state();
                let mut v: Vec<PortAction> = Vec::new();
                match ait_state {
                    AitState::Ait => {
                        return Err(PortError::Ait { func_name: "listen_link_loop", ait_state });
                    },
                    AitState::Tick => {},
                    AitState::Normal => {
                        v.push(PortAction::ToPe(PortToPePacket::Packet((port_no, packet))));
                    },
                    AitState::Teck | AitState::Tack => {
                        let ghost p0 = packet;
                        match packet.next_ait_state() {
                            Ok(_) => {},
                            Err(error) => {
                                proof {
                                    assert(packet.spec_uuid() == p0.spec_uuid()) by {
                                        crate::uuid_ec::Uuid::lemma_parts(packet.spec_uuid(), p0.spec_uuid().spec_code(),
                                            p0.spec_uuid().spec_port_byte(), p0.spec_uuid().spec_rest());
                                        crate::uuid_ec::Uuid::lemma_parts(p0.spec_uuid(), p0.spec_uuid().spec_code(),
                                            p0.spec_uuid().spec_port_byte(), p0.spec_uuid().spec_rest());
                                    }
                                }
                                return Err(PortError::Uuid { func_name: "listen_link_loop", error });
                            },
                        }
                        v.push(PortAction::ToLink(packet));
                    },
                    AitState::Tock => {
                        let ghost p0 = packet;
                        match packet.next_ait_state() {
                            Ok(_) => {},
                            Err(error) => {
                                proof {
                                    assert(packet.spec_uuid() == p0.spec_uuid()) by {
                                        crate::uuid_ec::Uuid::lemma_parts(packet.spec_uuid(), p0.spec_uuid().spec_code(),
                                            p0.spec_uuid().spec_port_byte(), p0.spec_uuid().spec_rest());
                                        crate::uuid_ec::Uuid::lemma_parts(p0.spec_uuid(), p0.spec_uuid().spec_code(),
                                            p0.spec_uuid().spec_port_byte(), p0.spec_uuid().spec_rest());
                                    }
                                }
                                return Err(PortError::Uuid { func_name: "listen_link_loop", error });
                            },
                        }
                        let to_link = packet.clone();
                        packet.make_ait_send();
                        v.push(PortAction::ToLink(to_link));
                        v.push(PortAction::ToPe(PortToPePacket::Packet((port_no, packet))));
                    },
                }
                Ok(v)
            },
        }
    }

    /// A message from the packet engine, for the link: only packets go; an
    /// AIT packet goes one step on; a normal packet goes as it is; other AIT states are refused.
    pub fn pe_step(&self, msg: PeToPortPacket) -> (r: Result<Packet, PortError>)
        ensures
            match msg {
                PeToPortPacket::App(_) => r matches Err(PortError::App { func_name, port_no }) && func_name == "listen_pe_loop"
                    && port_no == self.spec_port_no().0,
                PeToPortPacket::Packet(p) => match p.spec_uuid().spec_ait_state() {
                    AitState::Ait => match ait_step(p.spec_uuid()) {
                        None => r matches Err(PortError::Uuid { func_name, error }) && func_name == "listen_pe_loop",
                        Some(_) => r matches Ok(q) && stepped_packet(p, q),
                    },
                    AitState::Normal => r == Ok::<Packet, PortError>(p),
                    _ => r matches Err(PortError::Ait { func_name, ait_state }) && func_name == "listen_pe_loop" && ait_state
                        == p.spec_uuid().spec_ait_state(),
                },
            },
    {
        let mut packet = match msg {
            PeToPortPacket::Packet(packet) => packet,
            PeToPortPacket::App(_) => {
                return Err(PortError::App { func_name: "listen_pe_loop", port_no: self.port_number.get_port_no().0 });
            },
        };
        let ait_state = packet.get_ait_state();
        match ait_state {
            AitState::Tick | AitState::Tock | AitState::Tack | AitState::Teck => {
                Err(PortError::Ait { func_name: "listen_pe_loop", ait_state })
            },
            AitState::Ait => match packet.next_ait_state() {
                Ok(_) => Ok(packet),
                Err(error) => Err(PortError::Uuid { func_name: "listen_pe_loop", error }),
            },
            AitState::Normal => Ok(packet),
        }
    }
}

} // verus!
