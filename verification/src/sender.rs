//! The sender role: it has no canvas of its own. A validated local
//! command is encoded and handed to the host as a packet addressed to
//! the configured channel, with a bounded timeout.

use vstd::prelude::*;
use crate::codec::{encode_bytes, encode_command};
use crate::error::ContractError;
use crate::msg::ExecuteMsg;
use crate::response::{attr, Attribute, PacketMsg, Response};
use crate::state::Config;
use crate::validate::{mutation_ok, validate};

pub use crate::contract::instantiate;
pub use crate::contract::try_set_channel;

verus! {

/// The identity this deployment records, checked by the migration
/// gate.
pub const CONTRACT_NAME: &'static str = "crates.io:multi-place-sender";

/// How long an emitted packet stays deliverable, in the host's time
/// units past the current block time.
pub const PACKET_TIMEOUT: u64 = 120;

/// The migration gate for the sender deployment.
pub fn migrate(stored_contract: &String, stored_version: &String) -> (r: Result<
    Response,
    ContractError,
>)
    ensures
        r is Ok <==> stored_contract@ == "crates.io:multi-place-sender"@
            && crate::contract::semver_older(stored_version@, "0.1.0"@) == Some(true),
        stored_contract@ != "crates.io:multi-place-sender"@ ==> (r matches Err(e)
            && e is TypeMismatch),
        stored_contract@ == "crates.io:multi-place-sender"@ && crate::contract::semver_older(
            stored_version@,
            "0.1.0"@,
        ) != Some(true) ==> (r matches Err(e) && e is BadVersion),
{
    crate::contract::migrate_gate(
        stored_contract,
        stored_version,
        CONTRACT_NAME,
        crate::contract::CONTRACT_VERSION,
    )
}

/// A validated local pixel command, forwarded as a packet: the same
/// bounds gate as the receiver's, then one packet on the configured
/// channel carrying the encoded command, timing out a fixed window
/// past `now`.
pub fn try_set_pixel(config: &Config, now: u64, pixel: u32, color: u8) -> (r: Result<
    Response,
    ContractError,
>)
    requires
        now + 120 <= u64::MAX,
    ensures
        r is Ok <==> mutation_ok(*config, pixel, color),
        color > config.colors_count ==> (r matches Err(e) && e is UnknownColor),
        color <= config.colors_count && pixel > config.canvas_size ==> (r matches Err(e)
            && e is PixelOutOfBounds),
        r matches Ok(resp) ==> {
            &&& resp.messages@.len() == 1
            &&& resp.messages@[0].channel_id@ == config.ibc_channel@
            &&& resp.messages@[0].data@ == encode_bytes(pixel, color)
            &&& resp.messages@[0].timeout_timestamp == now + 120
            &&& resp.attributes@.len() == 1
            &&& resp.attributes@[0].key@ == "method"@
            &&& resp.attributes@[0].value@ == "set_pixel"@
        },
{
    validate(config, pixel, color)?;
    let mut attributes: Vec<Attribute> = Vec::new();
    attributes.push(attr("method", "set_pixel".to_owned()));
    let mut messages: Vec<PacketMsg> = Vec::new();
    messages.push(
        PacketMsg {
            channel_id: config.ibc_channel.clone(),
            data: encode_command(pixel, color),
            timeout_timestamp: now + PACKET_TIMEOUT,
        },
    );
    Ok(Response { attributes, messages })
}

/// Dispatches a local command: a pixel command forwarded as a packet,
/// or an admin-gated channel rebinding.
pub fn execute(config: &mut Config, sender: &String, now: u64, msg: ExecuteMsg) -> (r: Result<
    Response,
    ContractError,
>)
    requires
        now + 120 <= u64::MAX,
    ensures
        match msg {
            ExecuteMsg::SetPixel { pixel, color } => {
                &&& *final(config) == *old(config)
                &&& (r is Ok <==> mutation_ok(*old(config), pixel, color))
                &&& (color > old(config).colors_count ==> (r matches Err(e) && e is UnknownColor))
                &&& (color <= old(config).colors_count && pixel > old(config).canvas_size ==> (
                r matches Err(e) && e is PixelOutOfBounds))
                &&& (r matches Ok(resp) ==> resp.messages@.len() == 1
                    && resp.messages@[0].channel_id@ == old(config).ibc_channel@
                    && resp.messages@[0].data@ == encode_bytes(pixel, color)
                    && resp.messages@[0].timeout_timestamp == now + 120
                    && resp.attributes@.len() == 1 && resp.attributes@[0].key@ == "method"@
                    && resp.attributes@[0].value@ == "set_pixel"@)
            },
            ExecuteMsg::SetChannel { channel } => {
                &&& (r is Ok <==> sender@ == old(config).admin@)
                &&& (sender@ != old(config).admin@ ==> (r matches Err(e) && e is Unauthorized)
                    && *final(config) == *old(config))
                &&& (sender@ == old(config).admin@ ==> final(config).admin == old(config).admin
                    && final(config).canvas_size == old(config).canvas_size
                    && final(config).colors_count == old(config).colors_count
                    && final(config).ibc_channel == channel)
                &&& (r matches Ok(resp) ==> resp.messages@.len() == 0 && resp.attributes@.len()
                    == 1 && resp.attributes@[0].key@ == "method"@
                    && resp.attributes@[0].value@ == "set_channel"@)
            },
        },
{
    match msg {
        ExecuteMsg::SetPixel { pixel, color } => try_set_pixel(config, now, pixel, color),
        ExecuteMsg::SetChannel { channel } => try_set_channel(config, sender, channel),
    }
}

} // verus!
