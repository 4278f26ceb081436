//! The mutation validator: the single bounds check protecting the
//! canvas invariant, applied identically to local commands and to
//! commands decoded from inbound packets.

use vstd::prelude::*;
use crate::error::ContractError;
use crate::state::Config;

verus! {

/// Whether `(pixel, color)` is within the bounds of `config`.
pub open spec fn mutation_ok(config: Config, pixel: u32, color: u8) -> bool {
    color <= config.colors_count && pixel <= config.canvas_size
}

/// Checks a proposed pixel write against the configured bounds. The
/// color bound is checked first, so an input violating both bounds
/// reports `UnknownColor`.
pub fn validate(config: &Config, pixel: u32, color: u8) -> (r: Result<(), ContractError>)
    ensures
        r is Ok <==> mutation_ok(*config, pixel, color),
        color > config.colors_count ==> (r matches Err(e) && e is UnknownColor),
        color <= config.colors_count && pixel > config.canvas_size ==> (r matches Err(e)
            && e is PixelOutOfBounds),
{
    if color > config.colors_count {
        return Err(ContractError::UnknownColor);
    }
    if pixel > config.canvas_size {
        return Err(ContractError::PixelOutOfBounds);
    }
    Ok(())
}

} // verus!
