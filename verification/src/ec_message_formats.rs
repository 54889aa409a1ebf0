//! What the cell agent, the cell model and the packet engine hand each
//! other.
use vstd::prelude::*;

use crate::config::{ByteArray, PortNo};
use crate::message::MsgDirection;
use crate::name::{SenderID, TreeID};
use crate::packet::Packet;
use crate::packet_engine::NumberOfPackets;
use crate::port::PortStatus;
use crate::routing_table_entry::RoutingTableEntry;
use crate::utility::Mask;
use crate::uuid_ec::Uuid;

verus! {

/// From the cell agent to the cell model.
#[derive(Debug)]
pub enum CaToCmBytes {
    /// A routing table entry for the packet engine.
    Entry(RoutingTableEntry),
    /// A message to send on a tree: tree, AIT, user mask, direction, blocking, bytes.
    Bytes((TreeID, bool, Mask, MsgDirection, bool, ByteArray)),
    /// Reroute traffic from a broken port to a new parent.
    Reroute((PortNo, PortNo, NumberOfPackets)),
    /// A port's status: port, border, packet counts, status.
    Status((PortNo, bool, NumberOfPackets, PortStatus)),
    /// Application bytes tunnelled to a port.
    TunnelPort((PortNo, ByteArray)),
    /// Application bytes tunnelled up to a sender.
    TunnelUp((SenderID, ByteArray)),
}

/// From the cell model to the packet engine.
#[derive(Debug)]
pub enum CmToPePacket {
    Entry(RoutingTableEntry),
    Packet((Mask, Packet)),
    Reroute((PortNo, PortNo, NumberOfPackets)),
}

/// From the packet engine to the cell model.
#[derive(Debug)]
pub enum PeToCmPacket {
    Status((PortNo, bool, NumberOfPackets, PortStatus)),
    Packet((PortNo, Packet)),
}

/// From the cell model to the cell agent.
#[derive(Debug)]
pub enum CmToCaBytes {
    Status((PortNo, bool, NumberOfPackets, PortStatus)),
    /// A reassembled message: arrival port, AIT, tree UUID, bytes.
    Bytes((PortNo, bool, Uuid, ByteArray)),
    TunnelPort((PortNo, ByteArray)),
    TunnelUp((SenderID, ByteArray)),
}

/// From the packet engine to a port.
#[derive(Debug)]
pub enum PeToPortPacket {
    Packet(Packet),
    App(ByteArray),
}

/// From a link to a port.
#[derive(Debug)]
pub enum LinkToPortPacket {
    Status(PortStatus),
    Packet(Packet),
}

/// From a port to the packet engine: a status (port, border, status), or a
/// packet with its arrival port.
#[derive(Debug)]
pub enum PortToPePacket {
    Status((PortNo, bool, PortStatus)),
    Packet((PortNo, Packet)),
}

} // verus!
