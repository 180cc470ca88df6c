//! The machine's state as mathematical values, and what each part of an
//! iteration of the main loop does to it.

use crate::config::{Word, EVENT_HANDLERS, REGISTERS, WORD_SIZE};
use crate::vm::events::{critical, CLOCK, INPUT, OUTPUT, SEGFAULT, UNKNOWN_ERROR};
use crate::vm::memory::{with_word, word_at, Layout};
use crate::vm::modes::{PTR, PTR_WITH_OFFSET};
use crate::vm::opcodes::{
    ADD, AND, CALL, DEC, DIV, EMIT, INC, JE, JG, JGE, JL, JLE, JMP, JNE, LOAD, MOD, MUL, NOP, NOT,
    OR, POP, PUSH, RET, SHL, SHR, STORE, SUB, SUBSCRIBE, SWP, UNSUBSCRIBE, WAIT, XOR,
};
use crate::vm::registers::{EE, EP, IR, PC, RP, SP};
use vstd::prelude::*;

verus! {

/// What the default SEGFAULT handler writes: "Segfault".
pub open spec fn segfault_text() -> Seq<u8> {
    seq![0x53u8, 0x65, 0x67, 0x66, 0x61, 0x75, 0x6c, 0x74]
}

/// What the default UNKNOWN_ERROR handler writes: "Unknown Error".
pub open spec fn unknown_error_text() -> Seq<u8> {
    seq![0x55u8, 0x6e, 0x6b, 0x6e, 0x6f, 0x77, 0x6e, 0x20, 0x45, 0x72, 0x72, 0x6f, 0x72]
}

/// The state of a machine.
#[verifier::ext_equal]
pub struct VmState {
    /// PC, IR, SP, RP, EP, EE, indexed by their ids.
    pub regs: Seq<Word>,
    /// The memory image.
    pub mem: Seq<u8>,
    pub layout: Layout,
    pub terminated: bool,
    /// Fetching is suspended until an event is dispatched.
    pub waiting: bool,
    /// An INPUT event without a user handler waits for a byte of input.
    pub awaiting_input: bool,
    /// Sequence number of the next CLOCK event.
    pub clock_step: u8,
    /// Bytes written to the output so far and not yet handed out.
    pub output: Seq<u8>,
}

impl VmState {
    pub open spec fn reg(&self, id: u8) -> Word {
        self.regs[id as int]
    }

    pub open spec fn pc(&self) -> Word {
        self.reg(PC)
    }

    pub open spec fn ir(&self) -> Word {
        self.reg(IR)
    }

    pub open spec fn sp(&self) -> Word {
        self.reg(SP)
    }

    pub open spec fn rp(&self) -> Word {
        self.reg(RP)
    }

    pub open spec fn ep(&self) -> Word {
        self.reg(EP)
    }

    pub open spec fn ee(&self) -> Word {
        self.reg(EE)
    }

    pub open spec fn with_reg(self, id: u8, value: Word) -> VmState {
        VmState { regs: self.regs.update(id as int, value), ..self }
    }

    /// The live locals stack, top first.
    pub open spec fn locals(&self) -> Seq<u8> {
        self.mem.subrange(self.sp() as int, self.layout.locals_stack_end as int)
    }

    /// The live return stack, top first, two bytes per address.
    pub open spec fn return_addresses(&self) -> Seq<u8> {
        self.mem.subrange(self.rp() as int, self.layout.return_stack_end as int)
    }

    /// The pending events as (event, argument) pairs, newest first.
    pub open spec fn queue(&self) -> Seq<u8> {
        self.mem.subrange(self.ep() as int, self.ee() as int)
    }

    pub open spec fn data(&self) -> Seq<u8> {
        self.mem.subrange(self.layout.data_begin as int, self.layout.data_end as int)
    }

    /// The handler installed for `event`; 0 when there is none.
    pub open spec fn handler(&self, event: u8) -> int {
        if event < EVENT_HANDLERS {
            word_at(self.mem, self.layout.handler_slot(event))
        } else {
            0
        }
    }

    /// Registers stay within their regions, and the queue holds whole pairs.
    pub open spec fn inv(&self) -> bool {
        &&& self.regs.len() == REGISTERS
        &&& self.layout.wf()
        &&& self.mem.len() == self.layout.event_queue_end
        &&& self.layout.locals_stack_begin <= self.sp() <= self.layout.locals_stack_end
        &&& self.layout.return_stack_begin <= self.rp() <= self.layout.return_stack_end
        &&& self.layout.event_queue_begin <= self.ep() <= self.ee() <= self.layout.event_queue_end
        &&& (self.ee() - self.ep()) % 2 == 0
    }

    pub open spec fn locals_room(&self) -> bool {
        self.sp() > self.layout.locals_stack_begin
    }

    pub open spec fn return_room(&self) -> bool {
        self.rp() >= self.layout.return_stack_begin + WORD_SIZE
    }

    pub open spec fn queue_room(&self) -> bool {
        self.ep() >= self.layout.event_queue_begin + 2
    }
}

/// The word made of two bytes, low byte first.
pub open spec fn word_of(lo: u8, hi: u8) -> int {
    lo + 256 * hi
}

pub open spec fn push_local(s: VmState, value: u8) -> VmState {
    let sp = (s.sp() - 1) as Word;
    VmState { mem: s.mem.update(sp as int, value), ..s.with_reg(SP, sp) }
}

pub open spec fn pop_local(s: VmState) -> VmState {
    s.with_reg(SP, (s.sp() + 1) as Word)
}

pub open spec fn push_return(s: VmState, address: Word) -> VmState {
    let rp = (s.rp() - WORD_SIZE) as Word;
    VmState { mem: with_word(s.mem, rp as int, address), ..s.with_reg(RP, rp) }
}

pub open spec fn pop_return(s: VmState) -> VmState {
    s.with_reg(RP, (s.rp() + WORD_SIZE) as Word)
}

pub open spec fn enqueue(s: VmState, event: u8, argument: u8) -> VmState {
    let ep = (s.ep() - 2) as Word;
    VmState { mem: s.mem.update(ep + 1, argument).update(ep as int, event), ..s.with_reg(EP, ep) }
}

/// The oldest pending event and its argument.
pub open spec fn queue_head(s: VmState) -> (u8, u8) {
    (s.mem[s.ee() - 2], s.mem[s.ee() - 1])
}

/// Removes the oldest pending event; a drained queue starts over at its end.
pub open spec fn dequeue(s: VmState) -> VmState {
    let ee = (s.ee() - 2) as Word;
    if ee == s.ep() {
        s.with_reg(EP, s.layout.event_queue_end).with_reg(EE, s.layout.event_queue_end)
    } else {
        s.with_reg(EE, ee)
    }
}

pub open spec fn write_output(s: VmState, bytes: Seq<u8>) -> VmState {
    VmState { output: s.output + bytes, ..s }
}

pub open spec fn set_handler(s: VmState, event: u8, handler: int) -> VmState {
    VmState { mem: with_word(s.mem, s.layout.handler_slot(event), handler as Word), ..s }
}

/// What happens to an event when no user handler takes it.
pub open spec fn default_dispatch(s: VmState, event: u8, argument: u8) -> VmState {
    let s1 = if event == INPUT {
        VmState { awaiting_input: true, ..s }
    } else if event == OUTPUT {
        write_output(s, seq![argument])
    } else if event == SEGFAULT {
        write_output(s, segfault_text())
    } else if event == UNKNOWN_ERROR {
        write_output(s, unknown_error_text())
    } else {
        s
    };
    if critical(event) {
        VmState { terminated: true, ..s1 }
    } else {
        s1
    }
}

/// Dispatch of one event: to its user handler if one is installed and both
/// stacks have room to enter it, else to the default handling (of a SEGFAULT,
/// when the stacks are full).
pub open spec fn dispatch(s: VmState, event: u8, argument: u8) -> VmState {
    let handler = s.handler(event);
    if handler == 0 {
        default_dispatch(s, event, argument)
    } else if s.locals_room() && s.return_room() {
        push_local(push_return(s, s.pc()), argument).with_reg(PC, handler as Word)
    } else {
        default_dispatch(s, SEGFAULT, 0)
    }
}

pub open spec fn segfault(s: VmState) -> VmState {
    dispatch(s, SEGFAULT, 0)
}

/// A push onto the locals stack, or a SEGFAULT when it is full.
pub open spec fn push_checked(s: VmState, value: u8) -> VmState {
    if s.locals_room() {
        push_local(s, value)
    } else {
        segfault(s)
    }
}

/// The code byte at PC; bytes past the image read as zero.
pub open spec fn code_byte(s: VmState) -> u8 {
    if s.pc() < s.mem.len() {
        s.mem[s.pc() as int]
    } else {
        0
    }
}

/// PC moved past the code byte it points at, if that byte is in the image.
pub open spec fn advance(s: VmState) -> VmState {
    if s.pc() < s.mem.len() {
        s.with_reg(PC, (s.pc() + 1) as Word)
    } else {
        s
    }
}

/// Reads one immediate byte from the code stream.
pub open spec fn read1(s: VmState) -> (VmState, Seq<u8>) {
    (advance(s), seq![code_byte(s)])
}

/// Reads two immediate bytes from the code stream.
pub open spec fn read2(s: VmState) -> (VmState, Seq<u8>) {
    let a = read1(s);
    let b = read1(a.0);
    (b.0, a.1 + b.1)
}

/// Reads three immediate bytes from the code stream.
pub open spec fn read3(s: VmState) -> (VmState, Seq<u8>) {
    let a = read1(s);
    let b = read2(a.0);
    (b.0, a.1 + b.1)
}

pub open spec fn is_binary(op: u8) -> bool {
    op == ADD || op == SUB || op == MUL || op == DIV || op == MOD || op == SWP || op == AND
        || op == OR || op == XOR
}

pub open spec fn is_unary(op: u8) -> bool {
    op == INC || op == DEC || op == NOT
}

pub open spec fn is_shift(op: u8) -> bool {
    op == SHL || op == SHR
}

pub open spec fn is_conditional_jump(op: u8) -> bool {
    op == JE || op == JNE || op == JL || op == JG || op == JLE || op == JGE
}

/// Operand bytes that decode hands to execute for `op`: none, when the
/// operands are missing, or exactly what execute reads.
pub open spec fn arity_ok(op: u8, n: int) -> bool {
    n == 0 || if is_binary(op) || is_shift(op) || op == JMP || op == CALL || op == RET || op
        == EMIT {
        n == 2
    } else if is_unary(op) || op == PUSH || op == UNSUBSCRIBE {
        n == 1
    } else if op == LOAD || op == SUBSCRIBE {
        n == 3
    } else if op == STORE {
        n == 4
    } else if is_conditional_jump(op) {
        n == 2 || n == 4
    } else {
        false
    }
}

/// Decode of the instruction whose opcode is in IR: operands popped or peeked
/// from the stacks and immediates read from the code stream.
pub open spec fn decode_spec(s: VmState) -> (VmState, Seq<u8>) {
    let op = s.ir() as u8;
    let l = s.locals();
    if is_binary(op) {
        if l.len() >= 2 {
            (pop_local(pop_local(s)), seq![l[0], l[1]])
        } else {
            (s, seq![])
        }
    } else if is_unary(op) {
        if l.len() >= 1 {
            (pop_local(s), seq![l[0]])
        } else {
            (s, seq![])
        }
    } else if is_shift(op) {
        if l.len() >= 1 {
            let r = read1(pop_local(s));
            (r.0, seq![l[0]] + r.1)
        } else {
            (s, seq![])
        }
    } else if op == PUSH || op == UNSUBSCRIBE {
        read1(s)
    } else if op == LOAD {
        let mode = code_byte(s);
        let s1 = advance(s);
        if mode == PTR {
            let r = read2(s1);
            (r.0, r.1 + seq![0u8])
        } else if mode == PTR_WITH_OFFSET && l.len() >= 1 {
            let r = read2(s1);
            (r.0, r.1 + seq![l[0]])
        } else {
            (s1, seq![])
        }
    } else if op == STORE {
        let mode = code_byte(s);
        let s1 = advance(s);
        if mode == PTR && l.len() >= 1 {
            let r = read2(s1);
            (r.0, r.1 + seq![l[0], 0u8])
        } else if mode == PTR_WITH_OFFSET && l.len() >= 2 {
            let r = read2(s1);
            (r.0, r.1 + seq![l[0], l[1]])
        } else {
            (s1, seq![])
        }
    } else if op == RET {
        let r = s.return_addresses();
        if r.len() >= 2 {
            (pop_return(s), seq![r[0], r[1]])
        } else {
            (s, seq![])
        }
    } else if op == JMP || op == CALL {
        read2(s)
    } else if is_conditional_jump(op) {
        let r = read2(s);
        if l.len() >= 2 {
            (r.0, seq![l[0], l[1]] + r.1)
        } else {
            r
        }
    } else if op == EMIT {
        let r = read1(s);
        (r.0, r.1 + seq![if l.len() > 0 { l[0] } else { 0u8 }])
    } else if op == SUBSCRIBE {
        read3(s)
    } else {
        (s, seq![])
    }
}

/// Result of an arithmetic or bitwise operation on the top byte `a` and the
/// byte `b` under it, modulo 256; DIV and MOD need `b != 0`.
pub open spec fn alu(op: u8, a: u8, b: u8) -> u8 {
    if op == ADD {
        ((a + b) % 256) as u8
    } else if op == SUB {
        ((a - b) % 256) as u8
    } else if op == MUL {
        ((a * b) % 256) as u8
    } else if op == DIV {
        (a / b) as u8
    } else if op == MOD {
        (a % b) as u8
    } else if op == AND {
        a & b
    } else if op == OR {
        a | b
    } else {
        a ^ b
    }
}

/// The predicate of a conditional jump, `a` being the top of the locals stack.
pub open spec fn jump_holds(op: u8, a: u8, b: u8) -> bool {
    if op == JE {
        a == b
    } else if op == JNE {
        a != b
    } else if op == JL {
        a < b
    } else if op == JG {
        a > b
    } else if op == JLE {
        a <= b
    } else {
        a >= b
    }
}

pub open spec fn needs_args(op: u8) -> bool {
    op != NOP && op != POP && op != WAIT
}

/// Execute of the instruction whose opcode is in IR, on the operands decode gave.
pub open spec fn execute_spec(s: VmState, args: Seq<u8>) -> VmState {
    let op = s.ir() as u8;
    if needs_args(op) && args.len() == 0 {
        segfault(s)
    } else if op == NOP {
        s
    } else if op == ADD || op == SUB || op == MUL || op == AND || op == OR || op == XOR {
        push_checked(s, alu(op, args[0], args[1]))
    } else if op == DIV || op == MOD {
        if args[1] == 0 {
            dispatch(s, UNKNOWN_ERROR, 0)
        } else {
            push_checked(s, alu(op, args[0], args[1]))
        }
    } else if op == INC {
        push_checked(s, ((args[0] + 1) % 256) as u8)
    } else if op == DEC {
        push_checked(s, ((args[0] - 1) % 256) as u8)
    } else if op == NOT {
        push_checked(s, args[0] ^ 0xff)
    } else if op == SHL {
        push_checked(s, args[0] << ((args[1] as u32) % 8))
    } else if op == SHR {
        push_checked(s, args[0] >> ((args[1] as u32) % 8))
    } else if op == PUSH {
        push_checked(s, args[0])
    } else if op == POP {
        if s.locals().len() == 0 {
            segfault(s)
        } else {
            pop_local(s)
        }
    } else if op == SWP {
        push_checked(push_checked(s, args[0]), args[1])
    } else if op == LOAD {
        let ptr = word_of(args[0], args[1]) + args[2];
        if s.layout.in_data(ptr) {
            push_checked(s, s.mem[ptr])
        } else {
            segfault(s)
        }
    } else if op == STORE {
        let ptr = word_of(args[0], args[1]) + args[3];
        if s.layout.in_data(ptr) {
            VmState { mem: s.mem.update(ptr, args[2]), ..s }
        } else {
            segfault(s)
        }
    } else if op == JMP || op == RET {
        s.with_reg(PC, word_of(args[0], args[1]) as Word)
    } else if is_conditional_jump(op) {
        if args.len() < 4 {
            segfault(s)
        } else if jump_holds(op, args[0], args[1]) {
            s.with_reg(PC, word_of(args[2], args[3]) as Word)
        } else {
            s
        }
    } else if op == CALL {
        if s.return_room() {
            push_return(s, s.pc()).with_reg(PC, word_of(args[0], args[1]) as Word)
        } else {
            segfault(s)
        }
    } else if op == EMIT {
        if critical(args[0]) {
            dispatch(s, args[0], args[1])
        } else if s.queue_room() {
            enqueue(s, args[0], args[1])
        } else {
            segfault(s)
        }
    } else if op == WAIT {
        VmState { waiting: true, ..s }
    } else if op == SUBSCRIBE {
        let handler = word_of(args[1], args[2]);
        if args[0] < EVENT_HANDLERS && (handler == 0 || s.layout.in_code(handler)) {
            set_handler(s, args[0], handler)
        } else {
            segfault(s)
        }
    } else if op == UNSUBSCRIBE {
        if args[0] < EVENT_HANDLERS {
            set_handler(s, args[0], 0)
        } else {
            segfault(s)
        }
    } else {
        segfault(s)
    }
}

/// Loads the opcode at PC into IR.
pub open spec fn fetch_spec(s: VmState) -> VmState {
    advance(s).with_reg(IR, code_byte(s) as Word)
}

/// Fetch, decode and execute of one instruction.
pub open spec fn instruction(s: VmState) -> VmState {
    let d = decode_spec(fetch_spec(s));
    execute_spec(d.0, d.1)
}

/// Dispatch of the oldest pending event, if any, which also ends a WAIT.
pub open spec fn drain(s: VmState) -> VmState {
    if s.terminated || s.queue().len() == 0 {
        s
    } else {
        let head = queue_head(s);
        dispatch(VmState { waiting: false, ..dequeue(s) }, head.0, head.1)
    }
}

/// A CLOCK event with the next sequence number, dropped when the queue is full.
pub open spec fn clock_tick(s: VmState) -> VmState {
    if s.queue_room() {
        VmState { clock_step: ((s.clock_step + 1) % 256) as u8, ..enqueue(s, CLOCK, s.clock_step) }
    } else {
        s
    }
}

/// One iteration of the main loop; `tick` says whether the clock's timeout
/// had elapsed.
#[verifier::opaque]
pub open spec fn step_spec(s: VmState, tick: bool) -> VmState {
    if s.terminated {
        s
    } else if !s.layout.in_code(s.pc() as int) && s.queue().len() == 0 {
        VmState { terminated: true, ..s }
    } else {
        let s1 = drain(
            if s.waiting {
                s
            } else {
                instruction(s)
            },
        );
        if tick {
            clock_tick(s1)
        } else {
            s1
        }
    }
}

} // verus!

verus! {

/// One iteration of a driver loop: a step of the machine, after which a
/// pending INPUT event receives `byte`.
pub open spec fn iteration(s: VmState, tick: bool, byte: u8) -> VmState {
    let s1 = step_spec(s, tick);
    if s1.awaiting_input {
        push_checked(VmState { awaiting_input: false, ..s1 }, byte)
    } else {
        s1
    }
}

/// Iterations of a driver loop, one for each tick decision and byte.
pub open spec fn iterations(s: VmState, ticks: Seq<bool>, bytes: Seq<u8>) -> VmState
    decreases ticks.len(),
{
    if ticks.len() == 0 || bytes.len() == 0 {
        s
    } else {
        iteration(iterations(s, ticks.drop_last(), bytes.drop_last()), ticks.last(), bytes.last())
    }
}

} // verus!

verus! {

/// The bytes handed to INPUT events over the iterations, in order.
pub open spec fn bytes_taken(s: VmState, ticks: Seq<bool>, bytes: Seq<u8>) -> Seq<u8>
    decreases ticks.len(),
{
    if ticks.len() == 0 || bytes.len() == 0 {
        seq![]
    } else {
        let earlier = bytes_taken(s, ticks.drop_last(), bytes.drop_last());
        let before = iterations(s, ticks.drop_last(), bytes.drop_last());
        if step_spec(before, ticks.last()).awaiting_input {
            earlier.push(bytes.last())
        } else {
            earlier
        }
    }
}

/// Byte `i` of an input stream that reads as zeros once exhausted.
pub open spec fn input_byte(input: Seq<u8>, i: int) -> u8 {
    if 0 <= i < input.len() {
        input[i]
    } else {
        0
    }
}

} // verus!
