//! Request messages accepted by the contract entry points.

use vstd::prelude::*;

verus! {

/// Initial configuration request. A missing `colors_count` defaults
/// to 16.
#[derive(Debug, Clone)]
pub struct InstantiateMsg {
    pub canvas_size: u32,
    pub colors_count: Option<u8>,
}

/// The application message carried inside a packet: exactly one
/// variant today, though the tagged wire format leaves the union
/// extensible.
#[derive(Debug, Clone)]
pub enum IbcExecuteMsg {
    SetPixel { pixel: u32, color: u8 },
}

/// A local command submitted by an actor on this ledger.
#[derive(Debug, Clone)]
pub enum ExecuteMsg {
    SetPixel { pixel: u32, color: u8 },
    SetChannel { channel: String },
}

} // verus!
