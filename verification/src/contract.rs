//! Entry-point logic shared by both roles: initial configuration,
//! admin-gated channel rebinding, and the migration gate.

use vstd::prelude::*;
use crate::codec::dec_chars;
use crate::error::ContractError;
use crate::msg::InstantiateMsg;
use crate::response::{attr, Attribute, Response};
use crate::state::Config;

verus! {

/// The version recorded by a fresh deployment and compared against by
/// the migration gate.
pub const CONTRACT_VERSION: &'static str = "0.1.0";

/// Whether the version text `stored` denotes a strictly older release
/// than `current`, by semantic-version precedence; `None` when either
/// text is not a well-formed semantic version.
pub uninterp spec fn semver_older(stored: Seq<char>, current: Seq<char>) -> Option<bool>;

/// Relies on semver::Version: `parse` of each text, and the crate's
/// version ordering (major, minor, patch, then pre-release and build).
#[verifier::external_body]
fn semver_strictly_older(stored: &str, current: &str) -> (r: Option<bool>)
    ensures
        r == semver_older(stored@, current@),
{
    let s = match semver::Version::parse(stored) {
        Ok(v) => v,
        Err(_) => {
            return None;
        },
    };
    let c = match semver::Version::parse(current) {
        Ok(v) => v,
        Err(_) => {
            return None;
        },
    };
    Some(s < c)
}

/// The color-count bound used when instantiation does not name one.
pub open spec fn default_colors_count() -> u8 {
    16
}

/// Builds the initial configuration: the caller becomes admin, the
/// color bound defaults to 16, and no channel is bound yet.
pub fn instantiate(sender: &String, msg: &InstantiateMsg) -> (r: (Config, Response))
    ensures
        r.0.admin@ == sender@,
        r.0.canvas_size == msg.canvas_size,
        r.0.colors_count == (match msg.colors_count {
            Some(c) => c,
            None => default_colors_count(),
        }),
        r.0.ibc_channel@ == Seq::<char>::empty(),
        r.1.messages@.len() == 0,
        r.1.attributes@.len() == 3,
        r.1.attributes@[0].key@ == "method"@ && r.1.attributes@[0].value@ == "instantiate"@,
        r.1.attributes@[1].key@ == "owner"@ && r.1.attributes@[1].value@ == sender@,
        r.1.attributes@[2].key@ == "canvas_square"@ && r.1.attributes@[2].value@ == dec_chars(
            msg.canvas_size as nat,
        ),
{
    let colors_count = match msg.colors_count {
        Some(c) => c,
        None => 16,
    };
    let config = Config {
        admin: sender.clone(),
        canvas_size: msg.canvas_size,
        colors_count,
        ibc_channel: String::new(),
    };
    let mut attributes: Vec<Attribute> = Vec::new();
    attributes.push(attr("method", "instantiate".to_owned()));
    attributes.push(attr("owner", sender.clone()));
    attributes.push(attr("canvas_square", crate::codec::u32_string(msg.canvas_size)));
    (config, Response { attributes, messages: Vec::new() })
}

/// Rebinds the instance's channel. Only the stored admin identity may
/// do so; any other caller is rejected and the configuration is left
/// untouched.
pub fn try_set_channel(config: &mut Config, sender: &String, channel: String) -> (r: Result<
    Response,
    ContractError,
>)
    ensures
        r is Ok <==> sender@ == old(config).admin@,
        sender@ != old(config).admin@ ==> (r matches Err(e) && e is Unauthorized)
            && *final(config) == *old(config),
        sender@ == old(config).admin@ ==> final(config).admin == old(config).admin
            && final(config).canvas_size == old(config).canvas_size
            && final(config).colors_count == old(config).colors_count
            && final(config).ibc_channel == channel,
        r matches Ok(resp) ==> resp.messages@.len() == 0 && resp.attributes@.len() == 1
            && resp.attributes@[0].key@ == "method"@
            && resp.attributes@[0].value@ == "set_channel"@,
{
    if !(*sender == config.admin) {
        return Err(ContractError::Unauthorized);
    }
    config.ibc_channel = channel;
    let mut attributes: Vec<Attribute> = Vec::new();
    attributes.push(attr("method", "set_channel".to_owned()));
    Ok(Response { attributes, messages: Vec::new() })
}

/// The migration gate: the recorded identity must match this contract
/// and the recorded version must be strictly older than the current
/// one. A record that does not parse as a semantic version cannot be
/// strictly older, so it is rejected the same way.
pub fn migrate_gate(
    stored_contract: &String,
    stored_version: &String,
    expected_contract: &str,
    current_version: &str,
) -> (r: Result<Response, ContractError>)
    ensures
        r is Ok <==> stored_contract@ == expected_contract@ && semver_older(
            stored_version@,
            current_version@,
        ) == Some(true),
        stored_contract@ != expected_contract@ ==> (r matches Err(e) && e is TypeMismatch),
        stored_contract@ == expected_contract@ && semver_older(stored_version@, current_version@)
            != Some(true) ==> (r matches Err(e) && e is BadVersion),
        r matches Ok(resp) ==> resp.messages@.len() == 0 && resp.attributes@.len() == 1
            && resp.attributes@[0].key@ == "method"@ && resp.attributes@[0].value@ == "migrate"@,
{
    let expected: String = expected_contract.to_owned();
    if !(*stored_contract == expected) {
        return Err(ContractError::TypeMismatch);
    }
    match semver_strictly_older(stored_version.as_str(), current_version) {
        Some(true) => {},
        _ => {
            return Err(ContractError::BadVersion);
        },
    }
    let mut attributes: Vec<Attribute> = Vec::new();
    attributes.push(attr("method", "migrate".to_owned()));
    Ok(Response { attributes, messages: Vec::new() })
}

} // verus!
