//! Codec for the action stream embedded in a recorded-game file: the ordered
//! log of player commands, timing markers, and synchronization checkpoints
//! that, replayed against deterministic simulation rules, reproduces a match.
//!
//! The library decodes and re-encodes the framing protocol, the
//! opcode-dispatched command variant family, and the shared conventions
//! (sentinel values, count-prefixed object lists) that every command type
//! relies on. All multi-byte integers on the wire are little-endian.
//! Coordinates and other single-precision fields are carried as their raw
//! 32-bit wire patterns; interpreting them as floating-point numbers is left
//! to the caller.
use vstd::prelude::*;

pub mod cmd_basic;
pub mod cmd_complex;
pub mod cmd_target;
pub mod cmd_tasking;
pub mod frame;
pub mod game;
pub mod objects;
pub mod reader;
pub mod stream;

verus! {

/// Identifier of a player slot. Wire width varies by field; the valid domain
/// is a single byte (0 is neutral/none in some contexts).
pub type PlayerID = u8;

/// Identifier of a game object (unit or building). Stored as 32 bits on the
/// wire; contexts that transmit it as a signed value restrict it below
/// 0x8000_0000, and 0xFFFF_FFFF conventionally means "no object".
pub type ObjectID = u32;

/// Identifier of a unit type, 16 bits wide.
pub type UnitTypeID = u16;

/// Identifier of a technology, 16 bits wide.
pub type TechID = u16;

/// The raw 32-bit pattern of a single-precision coordinate or scalar.
pub type F32Bits = u32;

/// A location with an X and Y coordinate, as raw wire patterns.
#[derive(Debug, Default, Clone, Copy, PartialEq, Eq, Structural)]
pub struct Location2 {
    /// The X coordinate's raw pattern.
    pub x: F32Bits,
    /// The Y coordinate's raw pattern.
    pub y: F32Bits,
}

/// A location with an X, Y, and Z coordinate, as raw wire patterns.
///
/// The Z coordinate is usually meaningless.
#[derive(Debug, Default, Clone, Copy, PartialEq, Eq, Structural)]
pub struct Location3 {
    /// The X coordinate's raw pattern.
    pub x: F32Bits,
    /// The Y coordinate's raw pattern.
    pub y: F32Bits,
    /// The Z coordinate's raw pattern.
    pub z: F32Bits,
}

/// A point on the building grid, in whole tiles.
#[derive(Debug, Default, Clone, Copy, PartialEq, Eq, Structural)]
pub struct GridPoint {
    /// The tile column.
    pub x: u8,
    /// The tile row.
    pub y: u8,
}

/// Why a decode failed. Every failure aborts decoding of the current stream:
/// the formats carry no resynchronization points below the frame level.
#[derive(Debug, Clone, Copy, PartialEq, Eq, Structural)]
pub enum DecodeError {
    /// Fewer bytes were available than a field or a declared length requires.
    Truncated,
    /// The leading byte of a frame is not in the known opcode table.
    UnknownOpcode(u8),
    /// The sub-opcode of a nested Game command is not in the known table.
    UnknownGameCommand(u8),
    /// A fixed guard value did not match the pattern the format requires.
    BadMarker,
    /// A field value does not fit the target field's valid domain.
    BadIdentifier,
    /// The discriminant of a stream record is not in the known table.
    UnknownActionKind(u32),
}

} // verus!
