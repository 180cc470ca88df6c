use lulzvm::common;
use lulzvm::config::{
    Word, APPENDED_SIZE, CLOCK_TIMEOUT_MS, CODE_OFFSET, EVENT_HANDLERS_SIZE, EVENT_QUEUE_SIZE,
    LOCALS_STACK_SIZE, MAX_EXECUTABLE_SIZE, REGISTERS_SIZE, RETURN_STACK_SIZE,
};
use lulzvm::utils::{self, test_run};
use lulzvm::vm::events::{
    is_critical, CLOCK, INPUT, OUTPUT, SEGFAULT, TERMINATE, UNKNOWN_ERROR,
};
use lulzvm::vm::instructions::{apply_bin_operator, condition};
use lulzvm::vm::memory::Memory;
use lulzvm::vm::modes::{PTR, PTR_WITH_OFFSET};
use lulzvm::vm::opcodes::{
    ADD, AND, CALL, DIV, EMIT, JE, JG, JGE, JL, JLE, JMP, JNE, LOAD, MOD, MUL, NOP, NOT, OR, POP, PUSH,
    RET, SHL, SHR, STORE, SUB, SUBSCRIBE, SWP, UNSUBSCRIBE, WAIT, XOR,
};
use lulzvm::vm::registers::{EE, EP, IR, PC, RP, SP};
use lulzvm::vm::VM;

#[test]
fn hex_rendering() {
    assert_eq!("", common::data_to_hex(&[]));
    assert_eq!("00 7f ff 0a", common::data_to_hex(&[0x00, 0x7f, 0xff, 0x0a]));
    assert_eq!("", utils::data_to_hex(&[]));
    assert_eq!("0x5a", utils::data_to_hex(&[0x5a]));
    assert_eq!("0x01 0xab 0xc0", utils::data_to_hex(&[0x01, 0xab, 0xc0]));
}

#[test]
fn critical_events() {
    assert!(!is_critical(CLOCK));
    assert!(!is_critical(INPUT));
    assert!(!is_critical(OUTPUT));
    assert!(is_critical(TERMINATE));
    assert!(is_critical(SEGFAULT));
    assert!(is_critical(UNKNOWN_ERROR));
    assert!(is_critical(0xff));
}

#[test]
fn memory_layout() {
    let executable = vec![0x03, 0x00, PUSH, 0x01, POP, 0xaa, 0xbb];
    assert!(Memory::is_loadable(&executable));
    let memory = Memory::from_executable(executable);
    assert_eq!(7, memory.executable_size);
    assert_eq!(CODE_OFFSET, memory.code_begin);
    assert_eq!(5, memory.code_end);
    assert_eq!(5, memory.data_begin);
    assert_eq!(7, memory.data_end);
    assert_eq!(7 + REGISTERS_SIZE, memory.locals_stack_begin);
    assert_eq!(memory.locals_stack_begin + LOCALS_STACK_SIZE, memory.locals_stack_end);
    assert_eq!(memory.locals_stack_end, memory.return_stack_begin);
    assert_eq!(memory.return_stack_begin + RETURN_STACK_SIZE, memory.return_stack_end);
    assert_eq!(memory.return_stack_end, memory.event_handlers_begin);
    assert_eq!(memory.event_handlers_begin + EVENT_HANDLERS_SIZE, memory.event_handlers_end);
    assert_eq!(memory.event_handlers_end, memory.event_queue_begin);
    assert_eq!(memory.event_queue_begin + EVENT_QUEUE_SIZE, memory.event_queue_end);
    assert_eq!((7 + APPENDED_SIZE) as usize, memory.raw.len());
    assert_eq!(&[PUSH, 0x01, POP], memory.code());
    assert_eq!(&[0xaa, 0xbb], memory.data());
    assert!(memory.is_in_code(2));
    assert!(memory.is_in_code(4));
    assert!(!memory.is_in_code(5));
    assert!(memory.is_in_data(5));
    assert!(memory.is_in_data(6));
    assert!(!memory.is_in_data(7));
    assert!(!memory.is_in_data(4));
}

#[test]
fn code_running_past_executable() {
    // The declared code is longer than the file: data is empty.
    let memory = Memory::from_executable(vec![0x10, 0x00, NOP]);
    assert_eq!(0x12, memory.code_end);
    assert_eq!(3, memory.data_begin);
    assert!(memory.data().is_empty());
}

#[test]
fn loadability() {
    assert!(Memory::is_loadable(&[]));
    assert!(Memory::is_loadable(&vec![0u8; MAX_EXECUTABLE_SIZE as usize]));
    assert!(!Memory::is_loadable(&vec![0u8; MAX_EXECUTABLE_SIZE as usize + 1]));
    assert!(!Memory::is_loadable(&[0xff, 0xff]));
    let memory = Memory::from_executable(vec![]);
    assert_eq!(CODE_OFFSET, memory.code_end);
    assert!(memory.code().is_empty());
    assert!(memory.data().is_empty());
}

#[test]
fn little_endian_words() {
    let mut data = vec![0x00, 0x11, 0x22, 0x33];
    assert_eq!(0x2211, Memory::read_word(&data, 1));
    Memory::write_word(&mut data, 2, 0xabcd);
    assert_eq!(vec![0x00, 0x11, 0xcd, 0xab], data);

    let mut memory = Memory::from_executable(vec![0x00, 0x00]);
    memory.put_word(10, 0x1234);
    assert_eq!(0x34, memory.get(10));
    assert_eq!(0x12, memory.get(11));
    assert_eq!(0x1234, memory.get_word(10));
    memory.put(10, 0x99);
    assert_eq!(0x1299, memory.get_word(10));
}

#[test]
fn event_handler_table() {
    let mut memory = Memory::from_executable(vec![0x02, 0x00, NOP, NOP]);
    assert_eq!(0x0000, memory.get_event_handler(OUTPUT));
    memory.set_event_handler(OUTPUT, 0x0003);
    assert_eq!(0x0003, memory.get_event_handler(OUTPUT));
    assert_eq!(0x0000, memory.get_event_handler(INPUT));
    let slot = (memory.event_handlers_begin + 2 * OUTPUT as Word) as usize;
    assert_eq!(&[0x03, 0x00], &memory.raw[slot..slot + 2]);
    memory.set_event_handler(OUTPUT, 0x0000);
    assert_eq!(0x0000, memory.get_event_handler(OUTPUT));
}

#[test]
fn arithmetic_wraps_modulo_256() {
    assert_eq!(0x04, apply_bin_operator(ADD, 0xff, 0x05));
    assert_eq!(0xfd, apply_bin_operator(SUB, 0x02, 0x05));
    assert_eq!(0x90, apply_bin_operator(MUL, 0x12, 0x08));
    assert_eq!(0x24, apply_bin_operator(DIV, 0xff, 0x07));
    assert_eq!(0x03, apply_bin_operator(MOD, 0xff, 0x06));
    assert_eq!(0x0c, apply_bin_operator(AND, 0x3c, 0x0f));
    assert_eq!(0x3f, apply_bin_operator(OR, 0x3c, 0x0f));
    assert_eq!(0x33, apply_bin_operator(XOR, 0x3c, 0x0f));
}

#[test]
fn jump_conditions() {
    assert!(condition(JE, 3, 3));
    assert!(!condition(JNE, 3, 3));
    assert!(condition(JL, 2, 3));
    assert!(!condition(JG, 2, 3));
    assert!(condition(JLE, 3, 3));
    assert!(condition(JGE, 4, 3));
    assert!(!condition(JGE, 2, 3));
}

#[test]
fn fresh_machine() {
    let vm = VM::new(vec![0x01, 0x00, NOP]);
    let memory = vm.memory();
    assert_eq!(CODE_OFFSET, vm.get_register(PC));
    assert_eq!(NOP as Word, vm.get_register(IR));
    assert_eq!(memory.locals_stack_end, vm.get_register(SP));
    assert_eq!(memory.return_stack_end, vm.get_register(RP));
    assert_eq!(memory.event_queue_end, vm.get_register(EP));
    assert_eq!(memory.event_queue_end, vm.get_register(EE));
    assert!(!vm.is_terminated());
    assert!(!vm.is_waiting());
    assert!(!vm.awaiting_input());
    assert_eq!(0, vm.clock_step());
    assert!(vm.get_output_ref().is_empty());
    assert_eq!(&[NOP], vm.code());
}

#[test]
fn stepping_by_hand() {
    let mut vm = VM::new(vec![0x04, 0x00, EMIT, INPUT, EMIT, OUTPUT]);
    vm.start();
    vm.step();
    assert!(vm.event_queue().is_empty());
    assert!(vm.awaiting_input());
    vm.give_input(0x42);
    assert!(!vm.awaiting_input());
    assert_eq!(&[0x42], vm.locals_stack());
    vm.step();
    assert!(vm.event_queue().is_empty());
    assert_eq!(vec![0x42], vm.take_output());
    assert!(vm.get_output_ref().is_empty());
    vm.step();
    assert!(vm.is_terminated());
}

#[test]
fn clock_ticks_number_events() {
    let mut vm = VM::new(vec![0x00, 0x00]);
    assert!(!vm.clock_elapsed(CLOCK_TIMEOUT_MS));
    assert!(vm.event_queue().is_empty());
    assert!(vm.clock_elapsed(CLOCK_TIMEOUT_MS + 1));
    assert_eq!(&[CLOCK, 0x00], vm.event_queue());
    assert_eq!(1, vm.clock_step());
    assert!(vm.clock_elapsed(CLOCK_TIMEOUT_MS + 100));
    assert_eq!(&[CLOCK, 0x01, CLOCK, 0x00], vm.event_queue());
    assert_eq!(2, vm.clock_step());
}

#[test]
fn full_event_queue_drops_clock_ticks() {
    let mut vm = VM::new(vec![0x00, 0x00]);
    for _ in 0..(EVENT_QUEUE_SIZE / 2) {
        assert!(vm.clock_elapsed(CLOCK_TIMEOUT_MS + 1));
    }
    assert_eq!(EVENT_QUEUE_SIZE as usize, vm.event_queue().len());
    assert_eq!((EVENT_QUEUE_SIZE / 2) as u8, vm.clock_step());
    assert!(vm.clock_elapsed(CLOCK_TIMEOUT_MS + 1));
    assert_eq!(EVENT_QUEUE_SIZE as usize, vm.event_queue().len());
    assert_eq!((EVENT_QUEUE_SIZE / 2) as u8, vm.clock_step());
}

#[test]
fn push_then_pop_leaves_nothing() {
    let executable = vec![0x00, 0x00, PUSH, 0x07, PUSH, 0x09, POP];
    let (output, vm) = test_run(&[], executable, 0);
    assert_eq!(&[0x07], vm.locals_stack());
    assert!(vm.return_stack().is_empty());
    assert!(vm.event_queue().is_empty());
    assert!(output.is_empty());
}

#[test]
fn push_push_swap_order() {
    let executable = vec![0x00, 0x00, PUSH, 0x01, PUSH, 0x02, SWP];
    let (_, vm) = test_run(&[], executable, 0);
    assert_eq!(&[0x01, 0x02], vm.locals_stack());
}

#[test]
fn store_then_load_reads_back() {
    let executable = vec![
        0x00, 0x00, PUSH, 0x5c, STORE, PTR, 0x0c, 0x00, LOAD, PTR, 0x0c, 0x00, 0x00,
    ];
    let (output, vm) = test_run(&[], executable, 1);
    assert_eq!(&[0x5c], vm.data());
    assert_eq!(&[0x5c, 0x5c], vm.locals_stack());
    assert!(output.is_empty());
}

#[test]
fn call_then_ret_returns_after_call() {
    let executable = vec![0x00, 0x00, CALL, 0x07, 0x00, EMIT, TERMINATE, PUSH, 0x01, RET];
    let (output, vm) = test_run(&[], executable, 0);
    assert!(vm.is_terminated());
    assert_eq!(&[0x01], vm.locals_stack());
    assert!(vm.return_stack().is_empty());
    assert_eq!(0x07, vm.get_register(PC));
    assert!(output.is_empty());
}

#[test]
fn jump_out_of_code_terminates() {
    let executable = vec![0x00, 0x00, PUSH, 0x01, JMP, 0x00, 0x10, PUSH, 0x02];
    let (output, vm) = test_run(&[], executable, 0);
    assert!(vm.is_terminated());
    assert_eq!(0x1000, vm.get_register(PC));
    assert_eq!(&[0x01], vm.locals_stack());
    assert!(output.is_empty());
}

#[test]
fn unknown_opcode_segfaults() {
    let (output, vm) = test_run(&[], vec![0x00, 0x00, 0xee, PUSH, 0x01], 0);
    assert!(vm.is_terminated());
    assert!(vm.locals_stack().is_empty());
    assert_eq!(b"Segfault", output.as_slice());
}

#[test]
fn unknown_address_mode_segfaults() {
    let (output, vm) = test_run(&[], vec![0x00, 0x00, PUSH, 0x01, LOAD, 0x07, 0x00, 0x00], 0);
    assert!(vm.is_terminated());
    assert_eq!(&[0x01], vm.locals_stack());
    assert_eq!(b"Segfault", output.as_slice());
}

#[test]
fn subscribe_outside_code_segfaults() {
    let (output, vm) = test_run(&[], vec![0x00, 0x00, SUBSCRIBE, OUTPUT, 0x00, 0x40], 0);
    assert!(vm.is_terminated());
    assert_eq!(b"Segfault", output.as_slice());
}

#[test]
fn subscribe_unknown_event_segfaults() {
    let (output, vm) = test_run(&[], vec![0x00, 0x00, SUBSCRIBE, 0x09, 0x02, 0x00], 0);
    assert!(vm.is_terminated());
    assert_eq!(b"Segfault", output.as_slice());
    let (output, _) = test_run(&[], vec![0x00, 0x00, UNSUBSCRIBE, 0x09], 0);
    assert_eq!(b"Segfault", output.as_slice());
}

#[test]
fn critical_event_without_table_entry_terminates() {
    let (output, vm) = test_run(&[], vec![0x00, 0x00, EMIT, 0x20, PUSH, 0x01], 0);
    assert!(vm.is_terminated());
    assert!(vm.locals_stack().is_empty());
    assert!(output.is_empty());
}

#[test]
fn handler_for_segfault_receives_control() {
    let executable = vec![
        0x00, 0x00, SUBSCRIBE, SEGFAULT, 0x08, 0x00, POP, NOP, // handler:
        EMIT, TERMINATE,
    ];
    let (output, vm) = test_run(&[], executable, 0);
    assert!(vm.is_terminated());
    assert_eq!(&[0x00], vm.locals_stack());
    assert_eq!(&[0x07, 0x00], vm.return_stack());
    assert!(output.is_empty());
}

#[test]
fn wait_resumes_on_event() {
    let executable = vec![0x00, 0x00, PUSH, 0x33, EMIT, OUTPUT, WAIT, PUSH, 0x44];
    let (output, vm) = test_run(&[], executable, 0);
    assert!(!vm.is_waiting());
    assert_eq!(&[0x44, 0x33], vm.locals_stack());
    assert_eq!(&[0x33], output.as_slice());
}

#[test]
fn input_exhausted_reads_zero() {
    let executable = vec![0x00, 0x00, EMIT, INPUT, EMIT, INPUT];
    let (_, vm) = test_run(&[0x05], executable, 0);
    assert_eq!(&[0x00, 0x05], vm.locals_stack());
}

#[test]
fn run_with_input_bytes() {
    let executable = vec![0x06, 0x00, EMIT, INPUT, EMIT, INPUT, EMIT, OUTPUT];
    let mut vm = VM::new(executable);
    let output = vm.run(&[0x0a, 0x0b]);
    assert_eq!(vec![0x0b], output);
    assert!(vm.is_terminated());
    assert_eq!(&[0x0b, 0x0a], vm.locals_stack());
    assert!(vm.get_output_ref().is_empty());
}

#[test]
fn emit_into_full_queue_segfaults() {
    let mut vm = VM::new(vec![0x02, 0x00, EMIT, OUTPUT]);
    vm.start();
    for i in 0..(EVENT_QUEUE_SIZE / 2) {
        vm.event_queue_push(CLOCK, i as u8);
    }
    vm.step();
    assert!(vm.is_terminated());
    assert_eq!(EVENT_QUEUE_SIZE as usize, vm.event_queue().len());
    assert_eq!(b"Segfault".to_vec(), vm.take_output());
}

#[test]
fn fault_handler_needs_room_on_the_stacks() {
    let executable = vec![
        0x00, 0x00, SUBSCRIBE, SEGFAULT, 0x0b, 0x00, PUSH, 0x01, JMP, 0x06, 0x00, // handler:
        EMIT, OUTPUT,
    ];
    let (output, vm) = test_run(&[], executable, 0);
    assert!(vm.is_terminated());
    assert_eq!(LOCALS_STACK_SIZE as usize, vm.locals_stack().len());
    assert!(vm.return_stack().is_empty());
    assert_eq!(b"Segfault", output.as_slice());
}

#[test]
fn load_outside_data_segfaults() {
    let executable = vec![0x00, 0x00, PUSH, 0x01, LOAD, PTR_WITH_OFFSET, 0x0a, 0x00, 0x77];
    let (output, vm) = test_run(&[], executable, 1);
    assert!(vm.is_terminated());
    assert_eq!(&[0x01], vm.locals_stack());
    assert_eq!(b"Segfault", output.as_slice());
}

#[test]
fn shift_amount_wraps_at_eight() {
    let (_, vm) = test_run(&[], vec![0x00, 0x00, PUSH, 0x03, SHL, 0x09], 0);
    assert_eq!(&[0x06], vm.locals_stack());
    let (_, vm) = test_run(&[], vec![0x00, 0x00, PUSH, 0x80, SHR, 0x0f], 0);
    assert_eq!(&[0x01], vm.locals_stack());
}

#[test]
fn store_with_offset_takes_value_from_top() {
    let executable = vec![
        0x00, 0x00, PUSH, 0x01, PUSH, 0x55, STORE, PTR_WITH_OFFSET, 0x0a, 0x00, 0x00, 0x88,
    ];
    let (output, vm) = test_run(&[], executable, 2);
    assert_eq!(&[0x00, 0x55], vm.data());
    assert_eq!(&[0x55, 0x01], vm.locals_stack());
    assert!(output.is_empty());
}

#[test]
fn not_complements_every_bit() {
    let (_, vm) = test_run(&[], vec![0x00, 0x00, PUSH, 0x5a, NOT], 0);
    assert_eq!(&[0xa5], vm.locals_stack());
}
