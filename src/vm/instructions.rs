//! Fetch, decode and execute of one instruction.

use crate::config::{Data, Word, EVENT_HANDLERS, WORD_SIZE};
use crate::vm::events::{is_critical, SEGFAULT, UNKNOWN_ERROR};
use crate::vm::memory::Memory;
use crate::vm::model::{
    advance, alu, arity_ok, code_byte, decode_spec, execute_spec, fetch_spec, jump_holds, word_of,
    VmState,
};
use crate::vm::modes::{PTR, PTR_WITH_OFFSET};
use crate::vm::opcodes::{
    ADD, AND, CALL, DEC, DIV, EMIT, INC, JE, JG, JGE, JL, JLE, JMP, JNE, LOAD, MOD, MUL, NOP, NOT,
    OR, POP, PUSH, RET, SHL, SHR, STORE, SUB, SUBSCRIBE, SWP, UNSUBSCRIBE, WAIT, XOR,
};
use crate::vm::registers::{EP, IR, PC, RP};
use crate::vm::VM;
use vstd::prelude::*;

verus! {

/// The arithmetic or bitwise operation `op` on the top byte `a` and the byte
/// `b` under it, wrapping modulo 256.
pub fn apply_bin_operator(op: u8, a: u8, b: u8) -> (r: u8)
    requires
        op == ADD || op == SUB || op == MUL || op == DIV || op == MOD || op == AND || op == OR
            || op == XOR,
        op == DIV || op == MOD ==> b != 0,
    ensures
        r == alu(op, a, b),
{
    if op == ADD {
        a.wrapping_add(b)
    } else if op == SUB {
        a.wrapping_sub(b)
    } else if op == MUL {
        a.wrapping_mul(b)
    } else if op == DIV {
        a / b
    } else if op == MOD {
        a % b
    } else if op == AND {
        a & b
    } else if op == OR {
        a | b
    } else {
        a ^ b
    }
}

/// The predicate of the conditional jump `op` on the top byte `a` and the
/// byte `b` under it.
pub fn condition(op: u8, a: u8, b: u8) -> (r: bool)
    ensures
        r == jump_holds(op, a, b),
{
    if op == JE {
        a == b
    } else if op == JNE {
        a != b
    } else if op == JL {
        a < b
    } else if op == JG {
        a > b
    } else if op == JLE {
        a <= b
    } else {
        a >= b
    }
}

impl VM {
    /// The code byte at PC, which then moves past it; bytes past the image
    /// read as zero and leave PC where it is.
    fn next_code_byte(&mut self) -> (r: u8)
        requires
            old(self).inv(),
        ensures
            final(self).inv(),
            r == code_byte(old(self)@),
            final(self)@ == advance(old(self)@),
    {
        let pc = self.get_register(PC);
        if (pc as usize) < self.memory.raw.len() {
            let value = self.memory.get(pc);
            self.increment_register(PC);
            value
        } else {
            0
        }
    }

    pub fn fetch(&mut self)
        requires
            old(self).inv(),
        ensures
            final(self).inv(),
            final(self)@ == fetch_spec(old(self)@),
    {
        let opcode = self.next_code_byte() as Word;
        self.set_register(IR, opcode);
    }

    /// Gathers the operands of the instruction in IR.
    pub fn decode(&mut self) -> (args: Data)
        requires
            old(self).inv(),
        ensures
            final(self).inv(),
            (final(self)@, args@) == decode_spec(old(self)@),
            arity_ok(old(self)@.ir() as u8, args@.len() as int),
    {
        let opcode = self.get_register(IR) as u8;
        let depth = self.locals_stack().len();
        let mut args: Data = Vec::new();
        if opcode == ADD || opcode == SUB || opcode == MUL || opcode == DIV || opcode == MOD
            || opcode == SWP || opcode == AND || opcode == OR || opcode == XOR {
            if depth >= 2 {
                let a = self.locals_stack_pop();
                let b = self.locals_stack_pop();
                args = vec![a, b];
            }
        } else if opcode == INC || opcode == DEC || opcode == NOT {
            if depth >= 1 {
                let a = self.locals_stack_pop();
                args = vec![a];
            }
        } else if opcode == SHL || opcode == SHR {
            if depth >= 1 {
                let a = self.locals_stack_pop();
                let n = self.next_code_byte();
                args = vec![a, n];
            }
        } else if opcode == PUSH || opcode == UNSUBSCRIBE {
            let v = self.next_code_byte();
            args = vec![v];
        } else if opcode == LOAD {
            let mode = self.next_code_byte();
            if mode == PTR {
                let lo = self.next_code_byte();
                let hi = self.next_code_byte();
                args = vec![lo, hi, 0];
            } else if mode == PTR_WITH_OFFSET && depth >= 1 {
                let lo = self.next_code_byte();
                let hi = self.next_code_byte();
                let offset = self.locals_stack_top();
                args = vec![lo, hi, offset];
            }
        } else if opcode == STORE {
            let mode = self.next_code_byte();
            if mode == PTR && depth >= 1 {
                let lo = self.next_code_byte();
                let hi = self.next_code_byte();
                let value = self.locals_stack_top();
                args = vec![lo, hi, value, 0];
            } else if mode == PTR_WITH_OFFSET && depth >= 2 {
                let lo = self.next_code_byte();
                let hi = self.next_code_byte();
                let locals = self.locals_stack();
                let value = locals[0];
                let offset = locals[1];
                args = vec![lo, hi, value, offset];
            }
        } else if opcode == RET {
            if self.return_stack().len() >= 2 {
                let addresses = self.return_stack();
                let lo = addresses[0];
                let hi = addresses[1];
                args = vec![lo, hi];
                let _ = self.return_stack_pop();
            }
        } else if opcode == JMP || opcode == CALL {
            let lo = self.next_code_byte();
            let hi = self.next_code_byte();
            args = vec![lo, hi];
        } else if opcode == JE || opcode == JNE || opcode == JL || opcode == JG || opcode == JLE
            || opcode == JGE {
            if depth >= 2 {
                let locals = self.locals_stack();
                let a = locals[0];
                let b = locals[1];
                let lo = self.next_code_byte();
                let hi = self.next_code_byte();
                args = vec![a, b, lo, hi];
            } else {
                let lo = self.next_code_byte();
                let hi = self.next_code_byte();
                args = vec![lo, hi];
            }
        } else if opcode == EMIT {
            let event = self.next_code_byte();
            let argument = if depth == 0 {
                0x00
            } else {
                self.locals_stack_top()
            };
            args = vec![event, argument];
        } else if opcode == SUBSCRIBE {
            let event = self.next_code_byte();
            let lo = self.next_code_byte();
            let hi = self.next_code_byte();
            args = vec![event, lo, hi];
        }
        args
    }

    /// The data address `word_of(lo, hi) + offset`, if it lies in the data segment.
    fn extract_data_ptr(&self, lo: u8, hi: u8, offset: u8) -> (r: Option<Word>)
        requires
            self.inv(),
        ensures
            self@.layout.in_data(word_of(lo, hi) + offset) ==> r == Some(
                (word_of(lo, hi) + offset) as Word,
            ),
            !self@.layout.in_data(word_of(lo, hi) + offset) ==> r == None::<Word>,
    {
        let ptr: u32 = lo as u32 + 256 * hi as u32 + offset as u32;
        if ptr <= 0xffff && self.memory.is_in_data(ptr as Word) {
            Some(ptr as Word)
        } else {
            None
        }
    }

    fn jump(&mut self, lo: u8, hi: u8)
        requires
            old(self).inv(),
        ensures
            final(self).inv(),
            final(self)@ == old(self)@.with_reg(PC, word_of(lo, hi) as Word),
    {
        let new_pc = lo as Word + 256 * hi as Word;
        self.set_register(PC, new_pc);
    }

    /// Jumps to the address in `args[2..4]` when the predicate holds of the
    /// first two; raises a SEGFAULT when they are missing.
    fn jump_if(&mut self, op: u8, args: &[u8])
        requires
            old(self).inv(),
            args@.len() == 2 || args@.len() == 4,
        ensures
            final(self).inv(),
            args@.len() < 4 ==> final(self)@ == crate::vm::model::segfault(old(self)@),
            args@.len() == 4 && jump_holds(op, args@[0], args@[1]) ==> final(self)@ == old(
                self,
            )@.with_reg(PC, word_of(args@[2], args@[3]) as Word),
            args@.len() == 4 && !jump_holds(op, args@[0], args@[1]) ==> final(self)@ == old(
                self,
            )@,
    {
        if args.len() < 4 {
            self.terminate_with_segfault();
        } else if condition(op, args[0], args[1]) {
            self.jump(args[2], args[3]);
        }
    }

    /// Runs the instruction in IR on the operands that decode gathered.
    #[verifier::rlimit(50)]
    pub fn execute(&mut self, args: &[u8])
        requires
            old(self).inv(),
            arity_ok(old(self)@.ir() as u8, args@.len() as int),
        ensures
            final(self).inv(),
            final(self)@ == execute_spec(old(self)@, args@),
    {
        let opcode = self.get_register(IR) as u8;
        let need_args = opcode != NOP && opcode != POP && opcode != WAIT;

        if need_args && args.len() == 0 {
            self.terminate_with_segfault();
        } else if opcode == NOP {
        } else if opcode == ADD || opcode == SUB || opcode == MUL || opcode == AND || opcode == OR
            || opcode == XOR {
            let value = apply_bin_operator(opcode, args[0], args[1]);
            self.locals_stack_push_checked(value);
        } else if opcode == DIV || opcode == MOD {
            if args[1] == 0 {
                self.process_event(UNKNOWN_ERROR, 0x00);
            } else {
                let value = apply_bin_operator(opcode, args[0], args[1]);
                self.locals_stack_push_checked(value);
            }
        } else if opcode == INC {
            self.locals_stack_push_checked(args[0].wrapping_add(1));
        } else if opcode == DEC {
            self.locals_stack_push_checked(args[0].wrapping_sub(1));
        } else if opcode == NOT {
            self.locals_stack_push_checked(args[0] ^ 0xff);
        } else if opcode == SHL {
            self.locals_stack_push_checked(args[0].wrapping_shl(args[1] as u32));
        } else if opcode == SHR {
            self.locals_stack_push_checked(args[0].wrapping_shr(args[1] as u32));
        } else if opcode == PUSH {
            self.locals_stack_push_checked(args[0]);
        } else if opcode == POP {
            if self.locals_stack().len() == 0 {
                self.terminate_with_segfault();
            } else {
                let _ = self.locals_stack_pop();
            }
        } else if opcode == SWP {
            self.locals_stack_push_checked(args[0]);
            self.locals_stack_push_checked(args[1]);
        } else if opcode == LOAD {
            match self.extract_data_ptr(args[0], args[1], args[2]) {
                Some(ptr) => {
                    let value = self.memory.get(ptr);
                    self.locals_stack_push_checked(value);
                },
                None => self.terminate_with_segfault(),
            }
        } else if opcode == STORE {
            match self.extract_data_ptr(args[0], args[1], args[3]) {
                Some(ptr) => {
                    self.memory.put(ptr, args[2]);
                    assert(self@ =~= (VmState {
                        mem: old(self)@.mem.update(ptr as int, args@[2]),
                        ..old(self)@
                    }));
                },
                None => self.terminate_with_segfault(),
            }
        } else if opcode == JMP || opcode == RET {
            self.jump(args[0], args[1]);
        } else if opcode == JE || opcode == JNE || opcode == JL || opcode == JG || opcode == JLE
            || opcode == JGE {
            self.jump_if(opcode, args);
        } else if opcode == CALL {
            if self.get_register(RP) < self.memory.return_stack_begin + WORD_SIZE {
                self.terminate_with_segfault();
            } else {
                let pc = self.get_register(PC);
                self.return_stack_push(pc);
                self.jump(args[0], args[1]);
            }
        } else if opcode == EMIT {
            let event = args[0];
            let argument = args[1];
            if is_critical(event) {
                self.process_event(event, argument);
            } else if self.get_register(EP) >= self.memory.event_queue_begin + 2 {
                self.event_queue_push(event, argument);
            } else {
                self.terminate_with_segfault();
            }
        } else if opcode == WAIT {
            self.waiting = true;
            assert(self@ =~= (VmState { waiting: true, ..old(self)@ }));
        } else if opcode == SUBSCRIBE {
            let event = args[0];
            let handler = Memory::read_word(args, 1);
            if (event as Word) < EVENT_HANDLERS && (handler == 0 || self.memory.is_in_code(
                handler,
            )) {
                self.memory.set_event_handler(event, handler);
                assert(self@ =~= crate::vm::model::set_handler(
                    old(self)@,
                    event,
                    handler as int,
                ));
            } else {
                self.terminate_with_segfault();
            }
        } else if opcode == UNSUBSCRIBE {
            let event = args[0];
            if (event as Word) < EVENT_HANDLERS {
                self.memory.set_event_handler(event, 0x0000);
                assert(self@ =~= crate::vm::model::set_handler(old(self)@, event, 0));
            } else {
                self.terminate_with_segfault();
            }
        } else {
            self.terminate_with_segfault();
        }
    }
}

} // verus!
