//! Properties of the machine that relate several steps or instructions.

use crate::config::Word;
use crate::vm::memory::word_at;
use crate::vm::model::{execute_spec, instruction, push_local, step_spec, word_of, VmState};
use crate::vm::modes::PTR;
use crate::vm::opcodes::{
    ADD, AND, CALL, DEC, DIV, INC, LOAD, MOD, MUL, NOT, OR, POP, PUSH, RET, SHL, SHR, STORE, SUB,
    SWP, XOR,
};
use crate::vm::registers::IR;
use vstd::arithmetic::power2::{lemma2_to64, pow2};
use vstd::prelude::*;

verus! {

/// The instruction bytes `code` stand at PC, inside the code segment and below
/// the data segment, so that no write to the data or the stacks reaches them.
pub open spec fn code_at(s: VmState, at: int, code: Seq<u8>) -> bool {
    &&& s.layout.code_begin <= at
    &&& at + code.len() <= s.layout.data_begin
    &&& forall|i: int| 0 <= i < code.len() ==> s.mem[at + i] == code[i]
}

/// A running machine whose PC has left the code segment with no event
/// pending terminates at its next iteration, whatever the clock does, and
/// changes nothing else.
pub proof fn lemma_leaving_code_terminates(s: VmState, tick: bool)
    requires
        s.inv(),
        !s.terminated,
        !s.layout.in_code(s.pc() as int),
        s.queue().len() == 0,
    ensures
        step_spec(s, tick) == (VmState { terminated: true, ..s }),
{
    reveal(step_spec);
}

/// What executing `op` on the operands `args` leaves on the locals stack.
pub open spec fn result_stack(s: VmState, op: u8, args: Seq<u8>) -> Seq<u8> {
    execute_spec(s.with_reg(IR, op as Word), args).locals()
}

/// A byte shifted left or right by `n < 8`, as multiplication or division
/// by `2^n`, modulo 256.
pub proof fn lemma_shift_byte(a: u8, n: u32)
    requires
        n < 8,
    ensures
        (a << n) as int == (a as int * pow2(n as nat)) % 256,
        (a >> n) as int == a as int / (pow2(n as nat) as int),
{
    lemma2_to64();
    if n == 0 {
        assert(a << 0u32 == a && a >> 0u32 == a) by (bit_vector);
    } else if n == 1 {
        assert(a << 1u32 == ((a as u32 * 2) % 256) as u8 && a >> 1u32 == a / 2) by (bit_vector);
    } else if n == 2 {
        assert(a << 2u32 == ((a as u32 * 4) % 256) as u8 && a >> 2u32 == a / 4) by (bit_vector);
    } else if n == 3 {
        assert(a << 3u32 == ((a as u32 * 8) % 256) as u8 && a >> 3u32 == a / 8) by (bit_vector);
    } else if n == 4 {
        assert(a << 4u32 == ((a as u32 * 16) % 256) as u8 && a >> 4u32 == a / 16) by (bit_vector);
    } else if n == 5 {
        assert(a << 5u32 == ((a as u32 * 32) % 256) as u8 && a >> 5u32 == a / 32) by (bit_vector);
    } else if n == 6 {
        assert(a << 6u32 == ((a as u32 * 64) % 256) as u8 && a >> 6u32 == a / 64) by (bit_vector);
    } else {
        assert(a << 7u32 == ((a as u32 * 128) % 256) as u8 && a >> 7u32 == a / 128)
            by (bit_vector);
    }
}

/// Every arithmetic and bitwise instruction, given its operands (`a` the
/// top of the locals stack, `b` the byte under it or the shift amount) and
/// room on the locals stack, pushes its result modulo 256 onto the rest.
pub proof fn lemma_arithmetic_results(s: VmState, a: u8, b: u8)
    requires
        s.inv(),
        s.locals_room(),
    ensures
        result_stack(s, ADD, seq![a, b]) == seq![((a + b) % 256) as u8] + s.locals(),
        result_stack(s, SUB, seq![a, b]) == seq![((a - b) % 256) as u8] + s.locals(),
        result_stack(s, MUL, seq![a, b]) == seq![((a * b) % 256) as u8] + s.locals(),
        b != 0 ==> result_stack(s, DIV, seq![a, b]) == seq![(a / b) as u8] + s.locals(),
        b != 0 ==> result_stack(s, MOD, seq![a, b]) == seq![(a % b) as u8] + s.locals(),
        result_stack(s, INC, seq![a]) == seq![((a + 1) % 256) as u8] + s.locals(),
        result_stack(s, DEC, seq![a]) == seq![((a + 255) % 256) as u8] + s.locals(),
        result_stack(s, AND, seq![a, b]) == seq![a & b] + s.locals(),
        result_stack(s, OR, seq![a, b]) == seq![a | b] + s.locals(),
        result_stack(s, XOR, seq![a, b]) == seq![a ^ b] + s.locals(),
        result_stack(s, NOT, seq![a]) == seq![a ^ 0xff] + s.locals(),
        b < 8 ==> result_stack(s, SHL, seq![a, b]) == seq![((a as int * pow2(b as nat)) % 256) as u8]
            + s.locals(),
        b < 8 ==> result_stack(s, SHR, seq![a, b]) == seq![(a as int / (pow2(b as nat) as int)) as u8]
            + s.locals(),
{
    if b < 8 {
        lemma_shift_byte(a, b as u32);
    }
    lemma_push_onto(s, ADD, ((a + b) % 256) as u8);
    lemma_push_onto(s, SUB, ((a - b) % 256) as u8);
    lemma_push_onto(s, MUL, ((a * b) % 256) as u8);
    if b != 0 {
        lemma_push_onto(s, DIV, (a / b) as u8);
        lemma_push_onto(s, MOD, (a % b) as u8);
    }
    lemma_push_onto(s, INC, ((a + 1) % 256) as u8);
    lemma_push_onto(s, DEC, ((a - 1) % 256) as u8);
    lemma_push_onto(s, AND, a & b);
    lemma_push_onto(s, OR, a | b);
    lemma_push_onto(s, XOR, a ^ b);
    lemma_push_onto(s, NOT, a ^ 0xff);
    lemma_push_onto(s, SHL, a << ((b as u32) % 8));
    lemma_push_onto(s, SHR, a >> ((b as u32) % 8));
}

/// Pushing onto the locals stack of a machine whose IR was just set puts the
/// byte on top of the stack it had.
proof fn lemma_push_onto(s: VmState, op: u8, v: u8)
    requires
        s.inv(),
        s.locals_room(),
    ensures
        push_local(s.with_reg(IR, op as Word), v).locals() == seq![v] + s.locals(),
{
    assert(push_local(s.with_reg(IR, op as Word), v).locals() =~= seq![v] + s.locals());
}

/// PUSH v then POP leaves the locals stack, the return stack, the event
/// queue, the data segment and the output as they were.
pub proof fn lemma_push_then_pop(s: VmState, v: u8)
    requires
        s.inv(),
        s.locals_room(),
        code_at(s, s.pc() as int, seq![PUSH, v, POP]),
    ensures
        ({
            let t = instruction(instruction(s));
            &&& t.locals() == s.locals()
            &&& t.return_addresses() == s.return_addresses()
            &&& t.queue() == s.queue()
            &&& t.data() == s.data()
            &&& t.output == s.output
            &&& t.pc() == s.pc() + 3
        }),
{
    let pc = s.pc() as int;
    assert(s.mem[pc] == PUSH);
    assert(s.mem[pc + 1] == v);
    assert(s.mem[pc + 2] == POP);
    let s1 = instruction(s);
    assert(s1.locals() =~= seq![v] + s.locals());
    assert(s1.mem[pc + 2] == POP);
    let t = instruction(s1);
    assert(t.locals() =~= s.locals());
    assert(t.return_addresses() =~= s.return_addresses());
    assert(t.queue() =~= s.queue());
    assert(t.data() =~= s.data());
}

/// PUSH v1; PUSH v2; SWP leaves `v1` on top and `v2` under it.
pub proof fn lemma_push_push_swap(s: VmState, v1: u8, v2: u8)
    requires
        s.inv(),
        s.sp() >= s.layout.locals_stack_begin + 2,
        code_at(s, s.pc() as int, seq![PUSH, v1, PUSH, v2, SWP]),
    ensures
        instruction(instruction(instruction(s))).locals() == seq![v1, v2] + s.locals(),
{
    let pc = s.pc() as int;
    assert(s.mem[pc] == PUSH);
    assert(s.mem[pc + 1] == v1);
    assert(s.mem[pc + 2] == PUSH);
    assert(s.mem[pc + 3] == v2);
    assert(s.mem[pc + 4] == SWP);
    let s1 = instruction(s);
    assert(s1.locals() =~= seq![v1] + s.locals());
    let s2 = instruction(s1);
    assert(s2.locals() =~= seq![v2, v1] + s.locals());
    assert(s2.mem[pc + 4] == SWP);
    let s3 = instruction(s2);
    assert(s3.locals() =~= seq![v1, v2] + s.locals());
}

/// STORE PTR addr then LOAD PTR addr, for an address in the data segment,
/// pushes the stored byte (the top of the locals stack) back.
pub proof fn lemma_store_then_load(s: VmState, lo: u8, hi: u8)
    requires
        s.inv(),
        s.locals().len() > 0,
        s.locals_room(),
        s.layout.in_data(word_of(lo, hi)),
        code_at(s, s.pc() as int, seq![STORE, PTR, lo, hi, LOAD, PTR, lo, hi]),
    ensures
        ({
            let t = instruction(instruction(s));
            let addr = word_of(lo, hi);
            &&& t.locals() == seq![s.locals()[0]] + s.locals()
            &&& t.mem[addr] == s.locals()[0]
            &&& t.data() == s.data().update(addr - s.layout.data_begin, s.locals()[0])
        }),
{
    let pc = s.pc() as int;
    let addr = word_of(lo, hi);
    assert(s.mem[pc] == STORE);
    assert(s.mem[pc + 1] == PTR);
    assert(s.mem[pc + 2] == lo);
    assert(s.mem[pc + 3] == hi);
    assert(s.mem[pc + 4] == LOAD);
    assert(s.mem[pc + 5] == PTR);
    assert(s.mem[pc + 6] == lo);
    assert(s.mem[pc + 7] == hi);
    assert(s.locals()[0] == s.mem[s.sp() as int]);
    let s1 = instruction(s);
    assert(s1.mem =~= s.mem.update(addr, s.locals()[0]));
    assert(s1.locals() =~= s.locals());
    assert(s1.data() =~= s.data().update(addr - s.layout.data_begin, s.locals()[0]));
    let t = instruction(s1);
    assert(t.locals() =~= seq![s.locals()[0]] + s.locals());
    assert(t.data() =~= s1.data());
}

/// CALL addr, with a RET at `addr`, comes back to the instruction after the
/// CALL, having pushed and then popped exactly one address (two bytes).
pub proof fn lemma_call_then_ret(s: VmState, lo: u8, hi: u8)
    requires
        s.inv(),
        s.return_room(),
        code_at(s, s.pc() as int, seq![CALL, lo, hi]),
        code_at(s, word_of(lo, hi), seq![RET]),
    ensures
        ({
            let s1 = instruction(s);
            let t = instruction(s1);
            &&& s1.pc() == word_of(lo, hi)
            &&& s1.return_addresses().len() == s.return_addresses().len() + 2
            &&& word_at(s1.return_addresses(), 0) == s.pc() + 3
            &&& t.pc() == s.pc() + 3
            &&& t.return_addresses() == s.return_addresses()
            &&& t.locals() == s.locals()
        }),
{
    let pc = s.pc() as int;
    let addr = word_of(lo, hi);
    assert(s.mem[pc] == CALL);
    assert(s.mem[pc + 1] == lo);
    assert(s.mem[pc + 2] == hi);
    assert(s.mem[addr + 0] == seq![RET][0]);
    assert(s.mem[addr] == RET);
    let s1 = instruction(s);
    assert(s1.mem[addr] == RET);
    assert(s1.return_addresses() =~= seq![((pc + 3) % 256) as u8, ((pc + 3) / 256) as u8]
        + s.return_addresses());
    let t = instruction(s1);
    assert(t.return_addresses() =~= s.return_addresses());
    assert(t.locals() =~= s.locals());
}

} // verus!
