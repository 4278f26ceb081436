//! The channel lifecycle and packet delivery callbacks.
//!
//! Handshake callbacks validate the proposed channel and abort on any
//! mismatch, so an incompatible channel is never established. The
//! packet-receive callback is the opposite: it never fails, and
//! reports rejection only inside the acknowledgment it returns.

use vstd::prelude::*;
use crate::codec::{
    ack_fail_bytes, ack_success_bytes, dec_chars, decode_command, decode_spec, make_ack_fail,
    make_ack_success, parse_error_text, u32_string,
};
use crate::error::ContractError;
use crate::msg::IbcExecuteMsg;
use crate::response::{attr, Attribute, IbcReceiveResponse, Response};
use crate::state::{Canvas, Config};
use crate::validate::{mutation_ok, validate};

verus! {

/// The protocol version token every channel proposal must carry.
pub const IBC_VERSION: &'static str = "multi-place-1";

/// The version token, at the specification level.
pub open spec fn ibc_version_text() -> Seq<char> {
    "multi-place-1"@
}

/// The delivery ordering mode of a proposed channel.
#[derive(Debug, Clone, Copy, PartialEq, Eq, Structural)]
pub enum IbcOrder {
    Unordered,
    Ordered,
}

/// The fields of a channel proposal that the handshake rules read.
#[derive(Debug, Clone)]
pub struct IbcChannel {
    pub channel_id: String,
    pub order: IbcOrder,
    pub version: String,
}

/// Whether a proposal passes every handshake rule: unordered delivery,
/// the fixed version token locally, and the same token from the
/// counterparty once known.
pub open spec fn handshake_ok(channel: IbcChannel, counterparty_version: Option<Seq<char>>) -> bool {
    &&& channel.order is Unordered
    &&& channel.version@ == ibc_version_text()
    &&& match counterparty_version {
        Some(v) => v == ibc_version_text(),
        None => true,
    }
}

/// The view of an optional counterparty version.
pub open spec fn counterparty_view(v: Option<&String>) -> Option<Seq<char>> {
    match v {
        Some(s) => Some(s@),
        None => None,
    }
}

/// Checks a channel proposal, first failure wins: ordering mode, then
/// the local version token, then the counterparty's.
pub fn validate_order_and_version(
    channel: &IbcChannel,
    counterparty_version: Option<&String>,
) -> (r: Result<(), ContractError>)
    ensures
        r is Ok <==> handshake_ok(*channel, counterparty_view(counterparty_version)),
        channel.order is Ordered ==> (r matches Err(e) && e is OrderedChannel),
        channel.order is Unordered && channel.version@ != ibc_version_text() ==> (r matches Err(e)
            && e matches ContractError::InvalidVersion { actual, expected }
            && actual@ == channel.version@ && expected@ == ibc_version_text()),
        channel.order is Unordered && channel.version@ == ibc_version_text() ==> (match counterparty_view(
            counterparty_version,
        ) {
            Some(v) => v != ibc_version_text() ==> (r matches Err(e)
                && e matches ContractError::InvalidVersion { actual, expected } && actual@ == v
                && expected@ == ibc_version_text()),
            None => true,
        }),
{
    match channel.order {
        IbcOrder::Ordered => {
            return Err(ContractError::OrderedChannel);
        },
        IbcOrder::Unordered => {},
    }
    let expected: String = IBC_VERSION.to_owned();
    if !(channel.version == expected) {
        return Err(
            ContractError::InvalidVersion { actual: channel.version.clone(), expected },
        );
    }
    if let Some(v) = counterparty_version {
        if !(*v == expected) {
            return Err(ContractError::InvalidVersion { actual: v.clone(), expected });
        }
    }
    Ok(())
}

/// The channel-open callback: it takes no state, so nothing is read
/// or persisted in either outcome. The validator's error comes back
/// unchanged, aborting the handshake.
pub fn ibc_channel_open(
    channel: &IbcChannel,
    counterparty_version: Option<&String>,
) -> (r: Result<(), ContractError>)
    ensures
        r is Ok <==> handshake_ok(*channel, counterparty_view(counterparty_version)),
        channel.order is Ordered ==> (r matches Err(e) && e is OrderedChannel),
        channel.order is Unordered && channel.version@ != ibc_version_text() ==> (r matches Err(e)
            && e matches ContractError::InvalidVersion { actual, expected }
            && actual@ == channel.version@ && expected@ == ibc_version_text()),
        channel.order is Unordered && channel.version@ == ibc_version_text() ==> (match counterparty_view(
            counterparty_version,
        ) {
            Some(v) => v != ibc_version_text() ==> (r matches Err(e)
                && e matches ContractError::InvalidVersion { actual, expected } && actual@ == v
                && expected@ == ibc_version_text()),
            None => true,
        }),
{
    validate_order_and_version(channel, counterparty_version)?;
    Ok(())
}

/// The channel-connect callback: the same validation, with both sides
/// of the handshake known, and no state read or persisted in either
/// outcome. The validator's error comes back unchanged, aborting the
/// handshake.
pub fn ibc_channel_connect(
    channel: &IbcChannel,
    counterparty_version: Option<&String>,
) -> (r: Result<Response, ContractError>)
    ensures
        r is Ok <==> handshake_ok(*channel, counterparty_view(counterparty_version)),
        channel.order is Ordered ==> (r matches Err(e) && e is OrderedChannel),
        channel.order is Unordered && channel.version@ != ibc_version_text() ==> (r matches Err(e)
            && e matches ContractError::InvalidVersion { actual, expected }
            && actual@ == channel.version@ && expected@ == ibc_version_text()),
        channel.order is Unordered && channel.version@ == ibc_version_text() ==> (match counterparty_view(
            counterparty_version,
        ) {
            Some(v) => v != ibc_version_text() ==> (r matches Err(e)
                && e matches ContractError::InvalidVersion { actual, expected } && actual@ == v
                && expected@ == ibc_version_text()),
            None => true,
        }),
        r matches Ok(resp) ==> resp.messages@.len() == 0 && resp.attributes@.len() == 2
            && resp.attributes@[0].key@ == "method"@
            && resp.attributes@[0].value@ == "ibc_channel_connect"@
            && resp.attributes@[1].key@ == "channel_id"@
            && resp.attributes@[1].value@ == channel.channel_id@,
{
    validate_order_and_version(channel, counterparty_version)?;
    let mut attributes: Vec<Attribute> = Vec::new();
    attributes.push(attr("method", "ibc_channel_connect".to_owned()));
    attributes.push(attr("channel_id", channel.channel_id.clone()));
    Ok(Response { attributes, messages: Vec::new() })
}

/// The channel-close callback: an accounting hook only; nothing is
/// validated and no state is touched.
pub fn ibc_channel_close(channel: &IbcChannel) -> (r: Response)
    ensures
        r.messages@.len() == 0,
        r.attributes@.len() == 2,
        r.attributes@[0].key@ == "method"@,
        r.attributes@[0].value@ == "ibc_channel_close"@,
        r.attributes@[1].key@ == "channel"@,
        r.attributes@[1].value@ == channel.channel_id@,
{
    let mut attributes: Vec<Attribute> = Vec::new();
    attributes.push(attr("method", "ibc_channel_close".to_owned()));
    attributes.push(attr("channel", channel.channel_id.clone()));
    Response { attributes, messages: Vec::new() }
}

/// The packet-timeout callback: the pending packet is abandoned; no
/// compensation is attempted.
pub fn ibc_packet_timeout() -> (r: Response)
    ensures
        r.messages@.len() == 0,
        r.attributes@.len() == 1,
        r.attributes@[0].key@ == "method"@,
        r.attributes@[0].value@ == "ibc_packet_timeout"@,
{
    let mut attributes: Vec<Attribute> = Vec::new();
    attributes.push(attr("method", "ibc_packet_timeout".to_owned()));
    Response { attributes, messages: Vec::new() }
}

/// The packet-acknowledge callback: an accounting hook only; failure
/// acknowledgments trigger no compensation.
pub fn ibc_packet_ack() -> (r: Response)
    ensures
        r.messages@.len() == 0,
        r.attributes@.len() == 1,
        r.attributes@[0].key@ == "method"@,
        r.attributes@[0].value@ == "ibc_packet_ack"@,
{
    let mut attributes: Vec<Attribute> = Vec::new();
    attributes.push(attr("method", "ibc_packet_ack".to_owned()));
    Response { attributes, messages: Vec::new() }
}

/// The failure acknowledgment carrying the message of `e`.
pub open spec fn fail_ack(e: ContractError) -> Seq<u8> {
    ack_fail_bytes(vstd::utf8::encode_utf8(e.spec_message()))
}

/// The attributes of a successful packet receipt: the method and the
/// written pixel and color, rendered in decimal.
pub open spec fn receive_success_attrs(r: IbcReceiveResponse, pixel: u32, color: u8) -> bool {
    &&& r.attributes@.len() == 3
    &&& r.attributes@[0].key@ == "method"@
    &&& r.attributes@[0].value@ == "execute_set_pixel"@
    &&& r.attributes@[1].key@ == "pixel"@
    &&& r.attributes@[1].value@ == dec_chars(pixel as nat)
    &&& r.attributes@[2].key@ == "color"@
    &&& r.attributes@[2].value@ == dec_chars(color as nat)
}

/// The attributes of a rejected packet receipt: the method and the
/// message of the error it degraded.
pub open spec fn receive_error_attrs(r: IbcReceiveResponse, msg: Seq<char>) -> bool {
    &&& r.attributes@.len() == 2
    &&& r.attributes@[0].key@ == "method"@
    &&& r.attributes@[0].value@ == "ibc_packet_receive"@
    &&& r.attributes@[1].key@ == "error"@
    &&& r.attributes@[1].value@ == msg
}

fn execute_set_pixel(config: &Config, canvas: &mut Canvas, pixel: u32, color: u8) -> (r: Result<
    IbcReceiveResponse,
    ContractError,
>)
    ensures
        r is Ok <==> mutation_ok(*config, pixel, color),
        mutation_ok(*config, pixel, color) ==> final(canvas)@ == old(canvas)@.insert(pixel, color),
        !mutation_ok(*config, pixel, color) ==> final(canvas)@ == old(canvas)@,
        color > config.colors_count ==> (r matches Err(e) && e is UnknownColor),
        color <= config.colors_count && pixel > config.canvas_size ==> (r matches Err(e)
            && e is PixelOutOfBounds),
        r matches Ok(resp) ==> resp.acknowledgement@ == ack_success_bytes()
            && receive_success_attrs(resp, pixel, color),
{
    validate(config, pixel, color)?;
    canvas.set(pixel, color);
    let mut attributes: Vec<Attribute> = Vec::new();
    attributes.push(attr("method", "execute_set_pixel".to_owned()));
    attributes.push(attr("pixel", u32_string(pixel)));
    attributes.push(attr("color", u32_string(color as u32)));
    Ok(IbcReceiveResponse { acknowledgement: make_ack_success(), attributes })
}

/// The fallible half of packet receipt: decode, validate, apply. Its
/// error never escapes to the host; [`ibc_packet_receive`] converts it
/// into a failure acknowledgment.
pub fn do_ibc_packet_receive(config: &Config, canvas: &mut Canvas, data: &[u8]) -> (r: Result<
    IbcReceiveResponse,
    ContractError,
>)
    ensures
        match decode_spec(data@) {
            Some(t) => {
                &&& (r is Ok <==> mutation_ok(*config, t.0, t.1))
                &&& (mutation_ok(*config, t.0, t.1) ==> final(canvas)@ == old(canvas)@.insert(
                    t.0,
                    t.1,
                ))
                &&& (!mutation_ok(*config, t.0, t.1) ==> final(canvas)@ == old(canvas)@)
                &&& (t.1 > config.colors_count ==> (r matches Err(e) && e is UnknownColor))
                &&& (t.1 <= config.colors_count && t.0 > config.canvas_size ==> (r matches Err(e)
                    && e is PixelOutOfBounds))
                &&& (r matches Ok(resp) ==> resp.acknowledgement@ == ack_success_bytes()
                    && receive_success_attrs(resp, t.0, t.1))
            },
            None => {
                &&& r matches Err(e) && e matches ContractError::Std { msg } && msg@
                    == parse_error_text()
                &&& final(canvas)@ == old(canvas)@
            },
        },
{
    let msg = decode_command(data)?;
    match msg {
        IbcExecuteMsg::SetPixel { pixel, color } => execute_set_pixel(config, canvas, pixel, color),
    }
}

/// The packet-receive callback. It never fails the enclosing
/// transaction: a malformed payload or an out-of-bounds write degrades
/// to a failure acknowledgment, and only a validated write reaches the
/// canvas.
pub fn ibc_packet_receive(config: &Config, canvas: &mut Canvas, data: &[u8]) -> (r:
    IbcReceiveResponse)
    ensures
        match decode_spec(data@) {
            Some(t) => {
                &&& (mutation_ok(*config, t.0, t.1) ==> final(canvas)@ == old(canvas)@.insert(
                    t.0,
                    t.1,
                ) && r.acknowledgement@ == ack_success_bytes() && receive_success_attrs(
                    r,
                    t.0,
                    t.1,
                ))
                &&& (!mutation_ok(*config, t.0, t.1) ==> final(canvas)@ == old(canvas)@)
                &&& (t.1 > config.colors_count ==> r.acknowledgement@ == fail_ack(
                    ContractError::UnknownColor,
                ) && receive_error_attrs(r, ContractError::UnknownColor.spec_message()))
                &&& (t.1 <= config.colors_count && t.0 > config.canvas_size
                    ==> r.acknowledgement@ == fail_ack(ContractError::PixelOutOfBounds)
                    && receive_error_attrs(r, ContractError::PixelOutOfBounds.spec_message()))
            },
            None => {
                &&& final(canvas)@ == old(canvas)@
                &&& r.acknowledgement@ == ack_fail_bytes(
                    vstd::utf8::encode_utf8(parse_error_text()),
                )
                &&& receive_error_attrs(r, parse_error_text())
            },
        },
{
    match do_ibc_packet_receive(config, canvas, data) {
        Ok(resp) => resp,
        Err(e) => {
            let message = e.message();
            let mut attributes: Vec<Attribute> = Vec::new();
            attributes.push(attr("method", "ibc_packet_receive".to_owned()));
            attributes.push(attr("error", message.clone()));
            let ghost ee = e;
            let ack = make_ack_fail(message);
            proof {
                assert(ack@ == fail_ack(ee));
            }
            IbcReceiveResponse { acknowledgement: ack, attributes }
        },
    }
}

} // verus!