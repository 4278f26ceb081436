//! Error taxonomy of the protocol core.
//!
//! Every entry point surfaces failure as one of these typed causes. The
//! packet-receive callback is the one place where an error is not
//! propagated: there it is rendered as a string (see [`ContractError::message`])
//! and carried inside a failure acknowledgment instead.

use vstd::prelude::*;

verus! {

/// Typed failure causes of the contract entry points.
#[derive(Debug, Clone)]
pub enum ContractError {
    /// A host-level fault, carried as its message text. Within the
    /// verified core this arises only from a malformed packet payload.
    Std { msg: String },
    /// Migration from a recorded version that is not strictly older.
    BadVersion,
    /// Migration from a record of a different contract identity.
    TypeMismatch,
    /// Reserved: a canvas bound that is not accepted at instantiation.
    BadCanvas,
    /// A color value above the configured color-count bound.
    UnknownColor,
    /// A pixel index above the configured canvas-size bound.
    PixelOutOfBounds,
    /// A caller other than the stored admin identity.
    Unauthorized,
    /// A channel proposal whose delivery mode is not "unordered".
    OrderedChannel,
    /// A channel proposal carrying the wrong protocol version token.
    InvalidVersion { actual: String, expected: String },
}

impl ContractError {
    /// The diagnostic text of this error, as carried inside a failure
    /// acknowledgment.
    pub fn message(&self) -> (r: String)
        ensures
            r@ == self.spec_message(),
    {
        match self {
            ContractError::Std { msg } => msg.clone(),
            ContractError::BadVersion => "cannot upgrade from a newer contract version".to_owned(),
            ContractError::TypeMismatch => "can only upgrade from same contract type".to_owned(),
            ContractError::BadCanvas => "square root of canvas size must be a whole number".to_owned(),
            ContractError::UnknownColor => "unknown color".to_owned(),
            ContractError::PixelOutOfBounds => "pixel out of bounds".to_owned(),
            ContractError::Unauthorized => "only admin can execute this function".to_owned(),
            ContractError::OrderedChannel => "only unordered channels are supported".to_owned(),
            ContractError::InvalidVersion { actual, expected } => {
                let mut r = "invalid IBC channel version. Got (".to_owned();
                r.append(actual.as_str());
                r.append("), expected (");
                r.append(expected.as_str());
                r.append(")");
                r
            },
        }
    }

    /// The diagnostic text, at the specification level.
    pub open spec fn spec_message(&self) -> Seq<char> {
        match self {
            ContractError::Std { msg } => msg@,
            ContractError::BadVersion => "cannot upgrade from a newer contract version"@,
            ContractError::TypeMismatch => "can only upgrade from same contract type"@,
            ContractError::BadCanvas => "square root of canvas size must be a whole number"@,
            ContractError::UnknownColor => "unknown color"@,
            ContractError::PixelOutOfBounds => "pixel out of bounds"@,
            ContractError::Unauthorized => "only admin can execute this function"@,
            ContractError::OrderedChannel => "only unordered channels are supported"@,
            ContractError::InvalidVersion { actual, expected } => "invalid IBC channel version. Got ("@
                + actual@ + "), expected ("@ + expected@ + ")"@,
        }
    }
}

} // verus!
