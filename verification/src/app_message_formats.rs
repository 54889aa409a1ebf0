//! What a boundary port hands the cell agent.
use vstd::prelude::*;

use crate::config::{ByteArray, PortNo};
use crate::port::PortStatus;

verus! {

/// A port's status change, or an application message that arrived on a port.
#[derive(Debug, Clone)]
pub enum PortToCaMsg {
    Status(PortNo, bool, PortStatus),
    AppMsg(PortNo, ByteArray),
}

} // verus!
