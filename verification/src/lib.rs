//! Codec for a fantasy-console cartridge format: program text and graphics
//! are carried in the two low bits of each RGBA channel of a PNG image.
//!
//! The pipeline runs pixels -> packed cartridge bytes -> compression-version
//! detection -> one of three version-specific text decoders, and produces a
//! [`Cartridge`] value.  The reverse direction packs cartridge bytes back
//! into pixel channels without disturbing the cover art held in the high
//! bits.

use vstd::prelude::*;

mod backref;
mod cartridge;
mod decode;
mod extract;
mod pngio;

pub use backref::BackReferenceMatcher;
pub use cartridge::decode_pico_txt;
pub use cartridge::{Cartridge, Compression, Gfx, Lua};
pub use decode::{bit_from_byte, get_v0_lua, get_v1_lua, get_v2_lua, old_lookup, to_u16, to_u32};
pub use extract::{extract_channels, pack_channels};

verus! {

/// Failure taxonomy of the codec.
///
/// `Format` covers structural faults of the container: a pixel buffer with
/// the wrong colour depth, a byte array shorter than a cartridge, a header
/// whose fields point outside the data.  `Decode` covers faults found while
/// interpreting the code region: text that is not valid UTF-8, a
/// back-reference into bytes that were never emitted, a truncated token
/// stream.  `Unsupported` marks a recognised but undetermined part of the
/// format.
#[derive(Debug, Clone, Copy, PartialEq, Eq, Structural)]
pub enum DecoError {
    Format,
    Decode,
    Unsupported,
}

} // verus!
