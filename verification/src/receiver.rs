//! The receiver role: applies validated pixel writes — local commands
//! and decoded inbound packets alike — to its own canvas.

use vstd::prelude::*;
use crate::error::ContractError;
use crate::msg::ExecuteMsg;
use crate::response::{attr, Attribute, Response};
use crate::state::{Canvas, Config};
use crate::validate::{mutation_ok, validate};

pub use crate::contract::instantiate;
pub use crate::contract::try_set_channel;

verus! {

/// The identity this deployment records, checked by the migration
/// gate.
pub const CONTRACT_NAME: &'static str = "crates.io:multi-place-receiver";

/// The migration gate for the receiver deployment.
pub fn migrate(stored_contract: &String, stored_version: &String) -> (r: Result<
    Response,
    ContractError,
>)
    ensures
        r is Ok <==> stored_contract@ == "crates.io:multi-place-receiver"@
            && crate::contract::semver_older(stored_version@, "0.1.0"@) == Some(true),
        stored_contract@ != "crates.io:multi-place-receiver"@ ==> (r matches Err(e)
            && e is TypeMismatch),
        stored_contract@ == "crates.io:multi-place-receiver"@ && crate::contract::semver_older(
            stored_version@,
            "0.1.0"@,
        ) != Some(true) ==> (r matches Err(e) && e is BadVersion),
{
    crate::contract::migrate_gate(
        stored_contract,
        stored_version,
        CONTRACT_NAME,
        crate::contract::CONTRACT_VERSION,
    )
}

/// A validated local pixel write: both bounds hold, the color is
/// stored, and a failed check leaves the canvas untouched.
pub fn try_set_pixel(config: &Config, canvas: &mut Canvas, pixel: u32, color: u8) -> (r: Result<
    Response,
    ContractError,
>)
    ensures
        r is Ok <==> mutation_ok(*config, pixel, color),
        mutation_ok(*config, pixel, color) ==> final(canvas)@ == old(canvas)@.insert(pixel, color),
        !mutation_ok(*config, pixel, color) ==> final(canvas)@ == old(canvas)@,
        color > config.colors_count ==> (r matches Err(e) && e is UnknownColor),
        color <= config.colors_count && pixel > config.canvas_size ==> (r matches Err(e)
            && e is PixelOutOfBounds),
        r matches Ok(resp) ==> resp.messages@.len() == 0 && resp.attributes@.len() == 1
            && resp.attributes@[0].key@ == "method"@ && resp.attributes@[0].value@ == "set_pixel"@,
{
    validate(config, pixel, color)?;
    canvas.set(pixel, color);
    let mut attributes: Vec<Attribute> = Vec::new();
    attributes.push(attr("method", "set_pixel".to_owned()));
    Ok(Response { attributes, messages: Vec::new() })
}

/// Dispatches a local command: a pixel write to the canvas, or an
/// admin-gated channel rebinding.
pub fn execute(config: &mut Config, canvas: &mut Canvas, sender: &String, msg: ExecuteMsg) -> (r:
    Result<Response, ContractError>)
    ensures
        match msg {
            ExecuteMsg::SetPixel { pixel, color } => {
                &&& *final(config) == *old(config)
                &&& (r is Ok <==> mutation_ok(*old(config), pixel, color))
                &&& (mutation_ok(*old(config), pixel, color) ==> final(canvas)@ == old(
                    canvas,
                )@.insert(pixel, color))
                &&& (!mutation_ok(*old(config), pixel, color) ==> final(canvas)@ == old(canvas)@)
                &&& (color > old(config).colors_count ==> (r matches Err(e) && e is UnknownColor))
                &&& (color <= old(config).colors_count && pixel > old(config).canvas_size ==> (
                r matches Err(e) && e is PixelOutOfBounds))
                &&& (r matches Ok(resp) ==> resp.messages@.len() == 0 && resp.attributes@.len()
                    == 1 && resp.attributes@[0].key@ == "method"@
                    && resp.attributes@[0].value@ == "set_pixel"@)
            },
            ExecuteMsg::SetChannel { channel } => {
                &&& final(canvas)@ == old(canvas)@
                &&& (r is Ok <==> sender@ == old(config).admin@)
                &&& (sender@ != old(config).admin@ ==> (r matches Err(e) && e is Unauthorized)
                    && *final(config) == *old(config))
                &&& (sender@ == old(config).admin@ ==> final(config).admin == old(config).admin
                    && final(config).canvas_size == old(config).canvas_size
                    && final(config).colors_count == old(config).colors_count
                    && final(config).ibc_channel == channel)
                &&& (r matches Ok(resp) ==> resp.messages@.len() == 0 && resp.attributes@.len()
                    == 1 && resp.attributes@[0].key@ == "method"@
                    && resp.attributes@[0].value@ == "set_channel"@)
            },
        },
{
    match msg {
        ExecuteMsg::SetPixel { pixel, color } => try_set_pixel(config, canvas, pixel, color),
        ExecuteMsg::SetChannel { channel } => try_set_channel(config, sender, channel),
    }
}

} // verus!
