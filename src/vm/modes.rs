//! Address modes of LOAD and STORE.

use vstd::prelude::*;

verus! {

/// A raw 16-bit address follows.
pub const PTR: u8 = 0x00;

/// A raw 16-bit address follows, to which an offset from the locals stack is
/// added: for LOAD the top byte, for STORE the byte under the stored value.
pub const PTR_WITH_OFFSET: u8 = 0x01;

} // verus!
