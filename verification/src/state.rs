//! Durable state of one deployed instance: the configuration record
//! and (for the role that applies writes) the canvas itself.

use vstd::prelude::*;
use std::collections::HashMap;

verus! {

/// The single configuration record of an instance.
///
/// `canvas_size` and `colors_count` are inclusive upper bounds on valid
/// pixel indices and color values. `ibc_channel` is empty until the
/// admin binds a channel.
#[derive(Debug, Clone)]
pub struct Config {
    pub admin: String,
    pub canvas_size: u32,
    pub colors_count: u8,
    pub ibc_channel: String,
}

/// The canvas: a mapping from pixel index to color. A missing entry is
/// an unset, background pixel.
#[derive(Debug)]
pub struct Canvas {
    pixels: HashMap<u32, u8>,
}

impl View for Canvas {
    type V = Map<u32, u8>;

    closed spec fn view(&self) -> Map<u32, u8> {
        self.pixels@
    }
}

impl Canvas {
    /// An empty canvas: every pixel unset.
    pub fn new() -> (r: Canvas)
        ensures
            r@ == Map::<u32, u8>::empty(),
    {
        Canvas { pixels: HashMap::new() }
    }

    /// The color stored at `pixel`, or `None` for an unset pixel.
    pub fn get(&self, pixel: u32) -> (r: Option<u8>)
        ensures
            r == (if self@.contains_key(pixel) {
                Some(self@[pixel])
            } else {
                None::<u8>
            }),
    {
        match self.pixels.get(&pixel) {
            Some(c) => Some(*c),
            None => None,
        }
    }

    /// Stores `color` at `pixel`, creating or overwriting the entry.
    pub fn set(&mut self, pixel: u32, color: u8)
        ensures
            final(self)@ == old(self)@.insert(pixel, color),
    {
        self.pixels.insert(pixel, color);
    }
}

/// A write is immediately readable and touches nothing else: after a
/// canvas accepts `(pixel, color)`, reading `pixel` yields exactly
/// `color`, and every other pixel keeps its previous state.
pub proof fn lemma_write_then_read(m: Map<u32, u8>, pixel: u32, color: u8)
    ensures
        m.insert(pixel, color).contains_key(pixel),
        m.insert(pixel, color)[pixel] == color,
        forall|q: u32| q != pixel ==> (m.insert(pixel, color).contains_key(q) <==> m.contains_key(
            q,
        )),
        forall|q: u32| q != pixel && m.contains_key(q) ==> m.insert(pixel, color)[q] == m[q],
{
}

} // verus!
