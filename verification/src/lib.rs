//! Decoding of Mode S / ADS-B surveillance messages: 24-bit parity
//! checking, bit-level frame parsing, compact position reporting (CPR)
//! reconstruction, and a per-aircraft state-vector table.

use vstd::prelude::*;

pub mod bds;
pub mod bits;
pub mod cpr;
pub mod crc;
pub mod fields;
pub mod hexparse;
pub mod math;
pub mod message;
pub mod pipeline;
pub mod snapshot;

verus! {

/// Why a frame was rejected.
#[derive(Clone, Copy, PartialEq, Eq, Structural, Debug)]
pub enum DecodeError {
    /// The byte slice is shorter than the announced bit length, or the
    /// bit length is below the 24 parity bits.
    ShortFrame,
    /// The frame length does not match its downlink format.
    WrongLength,
    /// The input text is not an even-length string of hex digits.
    InvalidHex,
    /// The downlink format is not one this decoder handles.
    UnsupportedDF(u8),
    /// Strict validation was requested and the parity check failed.
    CrcMismatch,
}

} // verus!
