//! Wire encoding of the Minecraft protocol: byte readers and writers,
//! the specification of every encoding they use, and the packets.

use vstd::prelude::*;

pub mod checks;
pub mod encryption;
pub mod fields;
pub mod frame;
pub mod laws;
pub mod packets;
pub mod properties;
pub mod reader;
pub mod wire;
pub mod writer;

verus! {

/// The seven value bits of one varint byte.
pub const SEGMENT_BITS: u8 = 0x7F;

/// The bit that marks a varint byte as followed by another.
pub const CONTINUE_BIT: u8 = 0x80;

} // verus!
