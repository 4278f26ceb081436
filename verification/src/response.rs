//! Typed results handed back to the host by the entry points:
//! log-style attributes, outbound packets, and the packet-receive
//! response that always carries an acknowledgment.

use vstd::prelude::*;

verus! {

/// One log-style key/value pair attached to a response.
#[derive(Debug, Clone)]
pub struct Attribute {
    pub key: String,
    pub value: String,
}

/// An outbound packet handed to the host transport: payload bytes
/// addressed to a channel, abandoned after the timeout instant.
#[derive(Debug, Clone)]
pub struct PacketMsg {
    pub channel_id: String,
    pub data: Vec<u8>,
    pub timeout_timestamp: u64,
}

/// The result of a successful entry-point call.
#[derive(Debug, Clone)]
pub struct Response {
    pub attributes: Vec<Attribute>,
    pub messages: Vec<PacketMsg>,
}

/// The result of the packet-receive callback. It exists even for
/// rejected packets: the verdict travels in `acknowledgement`, never
/// as a failure of the callback itself.
#[derive(Debug, Clone)]
pub struct IbcReceiveResponse {
    pub acknowledgement: Vec<u8>,
    pub attributes: Vec<Attribute>,
}

/// Builds one attribute from a literal key and an owned value.
pub fn attr(key: &str, value: String) -> (r: Attribute)
    ensures
        r.key@ == key@,
        r.value == value,
{
    Attribute { key: key.to_owned(), value }
}

} // verus!
