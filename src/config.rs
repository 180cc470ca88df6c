//! Sizes and offsets of the memory image.

use vstd::prelude::*;

verus! {

/// An address or a 16-bit value, stored little-endian.
pub type Word = u16;

/// An owned byte buffer.
pub type Data = Vec<u8>;

/// Number of registers: PC, IR, SP, RP, EP, EE.
pub const REGISTERS: Word = 6;

pub const WORD_SIZE: Word = 2;

/// Reserved slack appended past the executable; no register lives there.
pub const REGISTERS_SIZE: Word = REGISTERS * WORD_SIZE;

pub const LOCALS_STACK_SIZE: Word = 16 * 1024;

pub const RETURN_STACK_SIZE: Word = 2 * 1024;

pub const EVENT_HANDLERS: Word = 6;

pub const EVENT_HANDLERS_SIZE: Word = EVENT_HANDLERS * WORD_SIZE;

pub const EVENT_QUEUE_SIZE: Word = 128;

pub const CODE_SIZE_OFFSET: Word = 0x0;

pub const CODE_OFFSET: Word = CODE_SIZE_OFFSET + WORD_SIZE;

/// Bytes appended past the executable when it is loaded.
pub const APPENDED_SIZE: Word = REGISTERS_SIZE + LOCALS_STACK_SIZE + RETURN_STACK_SIZE
    + EVENT_HANDLERS_SIZE + EVENT_QUEUE_SIZE;

/// The largest executable whose whole image stays addressable by a word.
pub const MAX_EXECUTABLE_SIZE: Word = 0xffff - APPENDED_SIZE;

/// Milliseconds between two CLOCK events.
pub const CLOCK_TIMEOUT_MS: i64 = 50;

} // verus!
