//! Helpers for inspecting and driving a machine.

use crate::common::{ascii_chars, ascii_string, hex_text, push_hex_text};
use crate::config::{Data, Word, CODE_OFFSET, MAX_EXECUTABLE_SIZE};
use crate::vm::memory::{with_word, Memory};
use crate::vm::model::{bytes_taken, input_byte, iterations, VmState};
use crate::vm::{initial_state, reset_registers, VM};
use vstd::prelude::*;

verus! {

/// "0x", the prefix of each byte in `data_to_hex`.
pub open spec fn hex_prefix() -> Seq<u8> {
    seq![0x30u8, 0x78]
}

/// Each byte as `0x` and two lower-case hexadecimal digits, separated by spaces.
pub fn data_to_hex(data: &[u8]) -> (r: String)
    ensures
        r@ == ascii_chars(hex_text(data@, hex_prefix())),
{
    let mut text: Vec<u8> = Vec::new();
    let prefix: Vec<u8> = vec![0x30, 0x78];
    push_hex_text(&mut text, data, prefix.as_slice());
    assert(text@ =~= hex_text(data@, hex_prefix()));
    ascii_string(text)
}

/// The executable with its code size set to what lies between the code
/// size word and the last `data_size` bytes.
pub open spec fn with_code_size(executable: Seq<u8>, data_size: Word) -> Seq<u8> {
    with_word(executable, 0, (executable.len() - CODE_OFFSET - data_size) as Word)
}

/// Runs an executable whose last `data_size` bytes are its data, with `input`
/// as the input stream (zeros once it is exhausted), until the machine
/// terminates or `u64::MAX` iterations have run. Returns the output and the
/// machine, which is the one loaded and run by that many iterations.
pub fn test_run(input: &[u8], executable: Data, data_size: Word) -> (r: (Data, VM))
    requires
        CODE_OFFSET + data_size <= executable@.len() <= MAX_EXECUTABLE_SIZE,
    ensures
        r.1.inv(),
        exists|ticks: Seq<bool>, bytes: Seq<u8>|
            {
                let run = #[trigger] iterations(
                    initial_state(with_code_size(executable@, data_size)),
                    ticks,
                    bytes,
                );
                let taken = bytes_taken(
                    initial_state(with_code_size(executable@, data_size)),
                    ticks,
                    bytes,
                );
                &&& ticks.len() == bytes.len()
                &&& run.terminated || ticks.len() == u64::MAX
                &&& forall|i: int| 0 <= i < taken.len() ==> taken[i] == input_byte(input@, i)
                &&& r.0@ == run.output
                &&& r.1@ == (VmState { output: seq![], ..run })
            },
{
    let ghost given = executable@;
    let mut executable = executable;
    let code_size = executable.len() as Word - CODE_OFFSET - data_size;
    Memory::write_word(executable.as_mut_slice(), 0, code_size);
    assert(executable@ == with_code_size(given, data_size));

    let mut vm = VM::new(executable);
    assert(reset_registers(vm@) =~= initial_state(executable@));
    let output = vm.run(input);
    (output, vm)
}

} // verus!
