//! The virtual machine: memory image, registers, decoder, executor and events.

pub mod clock;
pub mod events;
pub mod instructions;
pub mod laws;
pub mod memory;
pub mod model;
pub mod modes;
pub mod opcodes;
pub mod registers;

use crate::config::{
    Data, Word, CLOCK_TIMEOUT_MS, CODE_OFFSET, EVENT_HANDLERS, REGISTERS, WORD_SIZE,
};
use crate::vm::events::{is_critical, CLOCK, INPUT, OUTPUT, SEGFAULT, UNKNOWN_ERROR};
use crate::vm::memory::{image_of, layout_of, loadable, word_at, Memory};
use crate::vm::model::{
    bytes_taken, clock_tick, default_dispatch, dequeue, input_byte, dispatch, drain, enqueue, iterations, pop_local,
    pop_return, push_checked, push_local, push_return, queue_head, segfault, segfault_text,
    step_spec, unknown_error_text, write_output, VmState,
};
use crate::vm::opcodes::NOP;
use crate::vm::registers::{EE, EP, IR, PC, RP, SP};
use stopwatch::Stopwatch;
use vstd::prelude::*;

verus! {

/// The machine state with PC, IR and the stack and queue pointers as `start`
/// sets them before the first fetch.
pub open spec fn reset_registers(s: VmState) -> VmState {
    VmState {
        regs: seq![
            CODE_OFFSET,
            NOP as Word,
            s.layout.locals_stack_end,
            s.layout.return_stack_end,
            s.layout.event_queue_end,
            s.layout.event_queue_end,
        ],
        ..s
    }
}

/// The machine as `new` builds it from an executable.
pub open spec fn initial_state(executable: Seq<u8>) -> VmState {
    let layout = layout_of(executable);
    VmState {
        regs: seq![
            CODE_OFFSET,
            NOP as Word,
            layout.locals_stack_end,
            layout.return_stack_end,
            layout.event_queue_end,
            layout.event_queue_end,
        ],
        mem: image_of(executable),
        layout,
        terminated: false,
        waiting: false,
        awaiting_input: false,
        clock_step: 0,
        output: seq![],
    }
}

/// A virtual machine. Its input and output are handed in and out as bytes:
/// see `step`, `awaiting_input`, `give_input` and `take_output`.
pub struct VM {
    registers: [Word; 6],
    memory: Memory,
    terminated: bool,
    waiting: bool,
    awaiting_input: bool,
    clock: Stopwatch,
    clock_step: u8,
    output: Data,
}

impl View for VM {
    type V = VmState;

    closed spec fn view(&self) -> VmState {
        VmState {
            regs: self.registers@,
            mem: self.memory.raw@,
            layout: self.memory.layout(),
            terminated: self.terminated,
            waiting: self.waiting,
            awaiting_input: self.awaiting_input,
            clock_step: self.clock_step,
            output: self.output@,
        }
    }
}

impl VM {
    pub open spec fn inv(&self) -> bool {
        self@.inv()
    }

    /// Loads an executable; the registers stand as `start` sets them.
    pub fn new(executable: Data) -> (vm: VM)
        requires
            loadable(executable@),
        ensures
            vm.inv(),
            vm@ == initial_state(executable@),
    {
        let ghost exe = executable@;
        let memory = Memory::from_executable(executable);
        let registers: [Word; 6] = [
            CODE_OFFSET,
            NOP as Word,
            memory.locals_stack_end,
            memory.return_stack_end,
            memory.event_queue_end,
            memory.event_queue_end,
        ];
        let vm = VM {
            registers,
            memory,
            terminated: false,
            waiting: false,
            awaiting_input: false,
            clock: Stopwatch::new(),
            clock_step: 0,
            output: Vec::new(),
        };
        assert(vm@.regs =~= initial_state(exe).regs);
        assert(vm@ =~= initial_state(exe));
        vm
    }

    pub fn memory(&self) -> (r: &Memory)
        ensures
            r.layout() == self@.layout,
            r.raw@ == self@.mem,
    {
        &self.memory
    }

    pub fn get_register(&self, id: u8) -> (r: Word)
        requires
            id < REGISTERS,
        ensures
            r == self@.reg(id),
    {
        self.registers[id as usize]
    }

    fn set_register(&mut self, id: u8, value: Word)
        requires
            id < REGISTERS,
        ensures
            final(self)@ == old(self)@.with_reg(id, value),
    {
        self.registers[id as usize] = value;
        assert(self@ =~= old(self)@.with_reg(id, value));
    }

    fn increment_register_by(&mut self, id: u8, acc: Word)
        requires
            id < REGISTERS,
            old(self)@.reg(id) + acc <= Word::MAX,
        ensures
            final(self)@ == old(self)@.with_reg(id, (old(self)@.reg(id) + acc) as Word),
    {
        let value = self.get_register(id) + acc;
        self.set_register(id, value);
    }

    fn decrement_register_by(&mut self, id: u8, acc: Word)
        requires
            id < REGISTERS,
            old(self)@.reg(id) >= acc,
        ensures
            final(self)@ == old(self)@.with_reg(id, (old(self)@.reg(id) - acc) as Word),
    {
        let value = self.get_register(id) - acc;
        self.set_register(id, value);
    }

    fn increment_register(&mut self, id: u8)
        requires
            id < REGISTERS,
            old(self)@.reg(id) < Word::MAX,
        ensures
            final(self)@ == old(self)@.with_reg(id, (old(self)@.reg(id) + 1) as Word),
    {
        self.increment_register_by(id, 1);
    }

    fn decrement_register(&mut self, id: u8)
        requires
            id < REGISTERS,
            old(self)@.reg(id) > 0,
        ensures
            final(self)@ == old(self)@.with_reg(id, (old(self)@.reg(id) - 1) as Word),
    {
        self.decrement_register_by(id, 1);
    }

    pub fn code(&self) -> (r: &[u8])
        requires
            self.inv(),
        ensures
            r@ == self@.mem.subrange(self@.layout.code_begin as int, self@.layout.code_end as int),
    {
        self.memory.code()
    }

    pub fn data(&self) -> (r: &[u8])
        requires
            self.inv(),
        ensures
            r@ == self@.data(),
    {
        self.memory.data()
    }

    /// The live locals stack, top first.
    pub fn locals_stack(&self) -> (r: &[u8])
        requires
            self.inv(),
        ensures
            r@ == self@.locals(),
    {
        let sp = self.get_register(SP);
        self.memory.locals_stack(sp)
    }

    /// The live return stack, top first.
    pub fn return_stack(&self) -> (r: &[u8])
        requires
            self.inv(),
        ensures
            r@ == self@.return_addresses(),
    {
        let rp = self.get_register(RP);
        self.memory.return_stack(rp)
    }

    /// The pending events, newest first, as (event, argument) pairs.
    pub fn event_queue(&self) -> (r: &[u8])
        requires
            self.inv(),
        ensures
            r@ == self@.queue(),
    {
        let ep = self.get_register(EP);
        let ee = self.get_register(EE);
        self.memory.event_queue(ep, ee)
    }

    pub fn locals_stack_push(&mut self, value: u8)
        requires
            old(self).inv(),
            old(self)@.locals_room(),
        ensures
            final(self).inv(),
            final(self)@ == push_local(old(self)@, value),
    {
        self.decrement_register(SP);
        let sp = self.get_register(SP);
        self.memory.put(sp, value);
        assert(self@ =~= push_local(old(self)@, value));
    }

    pub fn locals_stack_pop(&mut self) -> (r: u8)
        requires
            old(self).inv(),
            old(self)@.locals().len() > 0,
        ensures
            final(self).inv(),
            r == old(self)@.locals()[0],
            final(self)@ == pop_local(old(self)@),
    {
        let value = self.locals_stack_top();
        self.increment_register(SP);
        value
    }

    pub fn locals_stack_top(&self) -> (r: u8)
        requires
            self.inv(),
            self@.locals().len() > 0,
        ensures
            r == self@.locals()[0],
    {
        let sp = self.get_register(SP);
        self.memory.get(sp)
    }

    pub fn return_stack_push(&mut self, address: Word)
        requires
            old(self).inv(),
            old(self)@.return_room(),
        ensures
            final(self).inv(),
            final(self)@ == push_return(old(self)@, address),
    {
        self.decrement_register_by(RP, WORD_SIZE);
        let rp = self.get_register(RP);
        self.memory.put_word(rp, address);
        assert(self@ =~= push_return(old(self)@, address));
    }

    pub fn return_stack_pop(&mut self) -> (r: Word)
        requires
            old(self).inv(),
            old(self)@.return_addresses().len() >= 2,
        ensures
            final(self).inv(),
            r as int == word_at(old(self)@.return_addresses(), 0),
            final(self)@ == pop_return(old(self)@),
    {
        let address = self.return_stack_top();
        self.increment_register_by(RP, WORD_SIZE);
        address
    }

    pub fn return_stack_top(&self) -> (r: Word)
        requires
            self.inv(),
            self@.return_addresses().len() >= 2,
        ensures
            r as int == word_at(self@.return_addresses(), 0),
    {
        let rp = self.get_register(RP);
        self.memory.get_word(rp)
    }

    pub fn event_queue_push(&mut self, event: u8, argument: u8)
        requires
            old(self).inv(),
            old(self)@.queue_room(),
        ensures
            final(self).inv(),
            final(self)@ == enqueue(old(self)@, event, argument),
    {
        self.decrement_register(EP);
        let ep = self.get_register(EP);
        self.memory.put(ep, argument);

        self.decrement_register(EP);
        let ep = self.get_register(EP);
        self.memory.put(ep, event);
        assert(self@ =~= enqueue(old(self)@, event, argument));
    }

    /// Takes the oldest pending event and its argument.
    pub fn event_queue_pop(&mut self) -> (r: (u8, u8))
        requires
            old(self).inv(),
            old(self)@.queue().len() > 0,
        ensures
            final(self).inv(),
            r == queue_head(old(self)@),
            final(self)@ == dequeue(old(self)@),
    {
        let ep = self.get_register(EP);

        self.decrement_register(EE);
        let ee = self.get_register(EE);
        let argument = self.memory.get(ee);

        self.decrement_register(EE);
        let ee = self.get_register(EE);
        let event = self.memory.get(ee);

        if ep == ee {
            let event_queue_end = self.memory.event_queue_end;
            self.set_register(EP, event_queue_end);
            self.set_register(EE, event_queue_end);
        }
        assert(self@ =~= dequeue(old(self)@));
        (event, argument)
    }

    /// Appends bytes to the output.
    fn write_output(&mut self, bytes: &[u8])
        requires
            old(self).inv(),
        ensures
            final(self).inv(),
            final(self)@ == write_output(old(self)@, bytes@),
    {
        let mut i: usize = 0;
        while i < bytes.len()
            invariant
                self.inv(),
                0 <= i <= bytes@.len(),
                self@ == write_output(old(self)@, bytes@.subrange(0, i as int)),
            decreases bytes@.len() - i,
        {
            self.output.push(bytes[i]);
            i = i + 1;
            assert(self@ =~= write_output(old(self)@, bytes@.subrange(0, i as int)));
        }
        assert(bytes@.subrange(0, i as int) =~= bytes@);
    }

    pub fn terminate(&mut self)
        ensures
            final(self)@ == (VmState { terminated: true, ..old(self)@ }),
    {
        self.terminated = true;
        assert(self@ =~= (VmState { terminated: true, ..old(self)@ }));
    }

    pub fn is_terminated(&self) -> (r: bool)
        ensures
            r == self@.terminated,
    {
        self.terminated
    }

    pub fn is_waiting(&self) -> (r: bool)
        ensures
            r == self@.waiting,
    {
        self.waiting
    }

    /// An INPUT event without a user handler waits for a byte: see `give_input`.
    pub fn awaiting_input(&self) -> (r: bool)
        ensures
            r == self@.awaiting_input,
    {
        self.awaiting_input
    }

    /// The sequence number of the next CLOCK event.
    pub fn clock_step(&self) -> (r: u8)
        ensures
            r == self@.clock_step,
    {
        self.clock_step
    }

    /// The output written and not yet taken.
    pub fn get_output_ref(&self) -> (r: &Data)
        ensures
            r@ == self@.output,
    {
        &self.output
    }

    /// Hands out the output written so far.
    pub fn take_output(&mut self) -> (r: Data)
        requires
            old(self).inv(),
        ensures
            final(self).inv(),
            r@ == old(self)@.output,
            final(self)@ == (VmState { output: Seq::empty(), ..old(self)@ }),
    {
        let mut r: Data = Vec::new();
        r.append(&mut self.output);
        assert(self@ =~= (VmState { output: Seq::empty(), ..old(self)@ }));
        r
    }

    /// What happens to an event when no user handler takes it.
    fn default_handler(&mut self, event: u8, argument: u8)
        requires
            old(self).inv(),
        ensures
            final(self).inv(),
            final(self)@ == default_dispatch(old(self)@, event, argument),
    {
        if event == INPUT {
            self.awaiting_input = true;
        } else if event == OUTPUT {
            let bytes: Vec<u8> = vec![argument];
            self.write_output(bytes.as_slice());
        } else if event == SEGFAULT {
            // "Segfault"
            let text: Vec<u8> = vec![0x53, 0x65, 0x67, 0x66, 0x61, 0x75, 0x6c, 0x74];
            assert(text@ =~= segfault_text());
            self.write_output(text.as_slice());
        } else if event == UNKNOWN_ERROR {
            // "Unknown Error"
            let text: Vec<u8> = vec![
                0x55, 0x6e, 0x6b, 0x6e, 0x6f, 0x77, 0x6e, 0x20, 0x45, 0x72, 0x72, 0x6f, 0x72,
            ];
            assert(text@ =~= unknown_error_text());
            self.write_output(text.as_slice());
        }
        if is_critical(event) {
            self.terminate();
        }
        assert(self@ =~= default_dispatch(old(self)@, event, argument));
    }

    /// Dispatches one event: to its user handler, which is entered with the
    /// current PC on the return stack and the argument on the locals stack,
    /// or to its default handling.
    fn process_event(&mut self, event: u8, argument: u8)
        requires
            old(self).inv(),
        ensures
            final(self).inv(),
            final(self)@ == dispatch(old(self)@, event, argument),
    {
        let handler = if (event as Word) < EVENT_HANDLERS {
            self.memory.get_event_handler(event)
        } else {
            0
        };
        if handler == 0 {
            self.default_handler(event, argument);
        } else if self.get_register(SP) > self.memory.locals_stack_begin && self.get_register(RP)
            >= self.memory.return_stack_begin + WORD_SIZE {
            let pc = self.get_register(PC);
            self.return_stack_push(pc);
            self.locals_stack_push(argument);
            self.set_register(PC, handler);
        } else {
            self.default_handler(SEGFAULT, 0);
        }
    }

    fn terminate_with_segfault(&mut self)
        requires
            old(self).inv(),
        ensures
            final(self).inv(),
            final(self)@ == segfault(old(self)@),
    {
        self.process_event(SEGFAULT, 0x00);
    }

    /// Pushes onto the locals stack, or raises a SEGFAULT when it is full.
    fn locals_stack_push_checked(&mut self, value: u8)
        requires
            old(self).inv(),
        ensures
            final(self).inv(),
            final(self)@ == push_checked(old(self)@, value),
    {
        if self.get_register(SP) <= self.memory.locals_stack_begin {
            self.terminate_with_segfault();
        } else {
            self.locals_stack_push(value);
        }
    }

    /// Dispatches the oldest pending event, if any and if the machine runs;
    /// this ends a WAIT.
    fn process_events(&mut self)
        requires
            old(self).inv(),
        ensures
            final(self).inv(),
            final(self)@ == drain(old(self)@),
    {
        let ep = self.get_register(EP);
        let ee = self.get_register(EE);
        if !self.terminated && ep != ee {
            let (event, argument) = self.event_queue_pop();
            self.waiting = false;
            proof {
                assert(self@ =~= (VmState { waiting: false, ..dequeue(old(self)@) }));
            }
            self.process_event(event, argument);
        }
    }

    /// Initializes the registers for a run and starts the clock.
    pub fn start(&mut self)
        requires
            old(self).inv(),
        ensures
            final(self).inv(),
            final(self)@ == reset_registers(old(self)@),
    {
        self.set_register(PC, CODE_OFFSET);
        self.set_register(IR, NOP as Word);
        let locals_stack_end = self.memory.locals_stack_end;
        self.set_register(SP, locals_stack_end);
        let return_stack_end = self.memory.return_stack_end;
        self.set_register(RP, return_stack_end);
        let event_queue_end = self.memory.event_queue_end;
        self.set_register(EP, event_queue_end);
        self.set_register(EE, event_queue_end);
        self.clock.start();
        assert(self@ =~= reset_registers(old(self)@));
    }

    /// Emits a CLOCK event when `elapsed_ms`, the time since the last one,
    /// exceeds the timeout; says whether it did.
    pub fn clock_elapsed(&mut self, elapsed_ms: i64) -> (ticked: bool)
        requires
            old(self).inv(),
        ensures
            final(self).inv(),
            ticked == (elapsed_ms > CLOCK_TIMEOUT_MS),
            ticked ==> final(self)@ == clock_tick(old(self)@),
            !ticked ==> final(self)@ == old(self)@,
    {
        if elapsed_ms > CLOCK_TIMEOUT_MS {
            if self.get_register(EP) >= self.memory.event_queue_begin + 2 {
                let clock_step = self.clock_step;
                self.event_queue_push(CLOCK, clock_step);
                self.clock_step = clock_step.wrapping_add(1);
                assert(self@ =~= clock_tick(old(self)@));
            }
            true
        } else {
            false
        }
    }

    /// Polls the clock, which is restarted whenever it yields a CLOCK event.
    fn update_clock(&mut self)
        requires
            old(self).inv(),
        ensures
            final(self).inv(),
            final(self)@ == old(self)@ || final(self)@ == clock_tick(old(self)@),
    {
        let elapsed_ms = self.clock.elapsed_ms();
        if self.clock_elapsed(elapsed_ms) {
            self.clock.restart();
        }
    }

    /// One iteration of the main loop: stop when PC has left the code and no
    /// event is pending; else fetch, decode and execute one instruction
    /// unless waiting, dispatch the oldest pending event, and poll the clock.
    pub fn step(&mut self)
        requires
            old(self).inv(),
            !old(self)@.awaiting_input,
        ensures
            final(self).inv(),
            final(self)@ == step_spec(old(self)@, false) || final(self)@ == step_spec(
                old(self)@,
                true,
            ),
    {
        reveal(step_spec);
        if self.terminated {
            return ;
        }
        let pc = self.get_register(PC);
        let ep = self.get_register(EP);
        let ee = self.get_register(EE);
        if !self.memory.is_in_code(pc) && ep == ee {
            self.terminate();
        } else {
            if !self.waiting {
                self.fetch();
                let args = self.decode();
                self.execute(args.as_slice());
            }
            self.process_events();
            self.update_clock();
        }
    }

    /// Completes an INPUT event without a user handler: pushes the byte read,
    /// or raises a SEGFAULT when the locals stack is full.
    pub fn give_input(&mut self, byte: u8)
        requires
            old(self).inv(),
            old(self)@.awaiting_input,
        ensures
            final(self).inv(),
            final(self)@ == push_checked(VmState { awaiting_input: false, ..old(self)@ }, byte),
            !final(self)@.awaiting_input,
    {
        self.awaiting_input = false;
        self.locals_stack_push_checked(byte);
    }

    /// Runs the machine from its first instruction, with `input` as the input
    /// stream (zeros once it is exhausted), until it terminates or `u64::MAX`
    /// iterations have run; returns the output. The machine is then the one
    /// started and run by that many iterations, its output handed out.
    pub fn run(&mut self, input: &[u8]) -> (output: Data)
        requires
            old(self).inv(),
            !old(self)@.awaiting_input,
        ensures
            final(self).inv(),
            exists|ticks: Seq<bool>, bytes: Seq<u8>|
                {
                    let run = #[trigger] iterations(reset_registers(old(self)@), ticks, bytes);
                    let taken = bytes_taken(reset_registers(old(self)@), ticks, bytes);
                    &&& ticks.len() == bytes.len()
                    &&& run.terminated || ticks.len() == u64::MAX
                    &&& forall|i: int| 0 <= i < taken.len() ==> taken[i] == input_byte(input@, i)
                    &&& output@ == run.output
                    &&& final(self)@ == (VmState { output: seq![], ..run })
                },
    {
        self.start();
        let ghost start = self@;

        let mut position: usize = 0;
        let mut count: u64 = 0;
        let ghost mut ticks: Seq<bool> = seq![];
        let ghost mut bytes: Seq<u8> = seq![];
        let ghost mut reads: int = 0;
        while !self.is_terminated() && count < u64::MAX
            invariant
                self.inv(),
                !self@.awaiting_input,
                position <= input@.len(),
                ticks.len() == count,
                bytes.len() == count,
                self@ == iterations(start, ticks, bytes),
                bytes_taken(start, ticks, bytes).len() == reads,
                position == if reads < input@.len() {
                    reads
                } else {
                    input@.len() as int
                },
                forall|i: int|
                    0 <= i < reads ==> #[trigger] bytes_taken(start, ticks, bytes)[i] == input_byte(
                        input@,
                        i,
                    ),
            decreases u64::MAX - count,
        {
            let ghost before = self@;
            self.step();
            let ghost tick = self@ == step_spec(before, true);
            let mut byte: u8 = 0;
            if self.awaiting_input() {
                if position < input.len() {
                    byte = input[position];
                    position = position + 1;
                }
                self.give_input(byte);
            }
            proof {
                let old_ticks = ticks;
                let old_bytes = bytes;
                let old_taken = bytes_taken(start, old_ticks, old_bytes);
                ticks = ticks.push(tick);
                bytes = bytes.push(byte);
                assert(ticks.drop_last() =~= old_ticks);
                assert(bytes.drop_last() =~= old_bytes);
                if step_spec(before, tick).awaiting_input {
                    assert(bytes_taken(start, ticks, bytes) == old_taken.push(byte));
                    assert(byte == input_byte(input@, reads));
                    reads = reads + 1;
                } else {
                    assert(bytes_taken(start, ticks, bytes) == old_taken);
                }
            }
            count = count + 1;
        }
        let output = self.take_output();
        assert(self@ =~= (VmState { output: seq![], ..iterations(start, ticks, bytes) }));
        output
    }
}

} // verus!

