//! Register ids.

use vstd::prelude::*;

verus! {

/// Next code byte to fetch.
pub const PC: u8 = 0;

/// Last opcode fetched.
pub const IR: u8 = 1;

/// Locals-stack pointer.
pub const SP: u8 = 2;

/// Return-stack pointer.
pub const RP: u8 = 3;

/// Event queue head: the newest pending event.
pub const EP: u8 = 4;

/// Event queue tail: one past the oldest pending event.
pub const EE: u8 = 5;

} // verus!
