use lc3::engine::{CharRequest, FaultKind};
use lc3::state::{KEYBOARD_DATA_REGISTER, State};

#[test]
fn step_fetches_increments_then_executes_pc_relative() {
    // LEA R0, #5 fetched at 0x3000: the offset counts from the
    // post-increment PC, so R0 receives 0x3006.
    let mut s = State::new();
    s.mem_set(0x3000, 0xE005);
    let mut key = None;
    let r = s.step(&mut key).unwrap();
    assert!(r.out.is_empty() && r.request.is_none());
    assert_eq!(s.pc, 0x3001);
    assert_eq!(s.registers[0], 0x3006);
}

#[test]
fn step_runs_a_small_program_to_halt() {
    // ADD R1, R2, R3; ADD R1, R1, #-1; HALT.
    let mut s = State::new();
    s.registers[2] = 5;
    s.registers[3] = 3;
    s.mem_set(0x3000, 0x1283);
    s.mem_set(0x3001, 0x127F);
    s.mem_set(0x3002, 0xF025);
    let mut key = None;
    while s.running {
        s.step(&mut key).unwrap();
    }
    assert_eq!(s.registers[1], 7);
    assert_eq!(s.pc, 0x3003);
}

#[test]
fn step_on_a_halted_machine_does_nothing() {
    // Once the running flag is false, no further fetch happens.
    let mut s = State::new();
    s.mem_set(0x3000, 0xE005);
    s.running = false;
    let mut key = Some(b'k');
    let r = s.step(&mut key).unwrap();
    assert!(r.out.is_empty() && r.request.is_none());
    assert_eq!(s.pc, 0x3000);
    assert_eq!(s.registers[0], 0);
    assert_eq!(key, Some(b'k'));
}

#[test]
fn halt_is_idempotent_across_steps() {
    let mut s = State::new();
    s.mem_set(0x3000, 0xF025);
    let mut key = None;
    s.step(&mut key).unwrap();
    assert!(!s.running);
    let before_regs = s.registers;
    let before_mem = s.memory;
    let r = s.step(&mut key).unwrap();
    assert!(r.out.is_empty() && r.request.is_none());
    assert!(s.registers == before_regs);
    assert!(s.memory == before_mem);
    assert_eq!(s.pc, 0x3001);
}

#[test]
fn reserved_opcode_faults_without_mutating_memory() {
    let mut s = State::new();
    s.mem_set(0x3000, 0xD000);
    s.mem_set(0x4000, 0x1111);
    let before = s.memory;
    let mut key = None;
    let f = s.step(&mut key).unwrap_err();
    assert_eq!(f.kind, FaultKind::IllegalOpcode(13));
    assert_eq!(f.pc, 0x3001);
    assert!(s.memory == before);
    assert_eq!(s.registers, [0u16; 8]);
}

#[test]
fn rti_faults_as_an_illegal_opcode() {
    let mut s = State::new();
    s.mem_set(0x3000, 0x8000);
    let mut key = None;
    let f = s.step(&mut key).unwrap_err();
    assert_eq!(f.kind, FaultKind::IllegalOpcode(8));
}

#[test]
fn unknown_trap_vector_faults_without_mutating_memory() {
    let mut s = State::new();
    s.mem_set(0x3000, 0xF026);
    let before = s.memory;
    let mut key = None;
    let f = s.step(&mut key).unwrap_err();
    assert_eq!(f.kind, FaultKind::UnknownTrap(0x26));
    assert_eq!(f.pc, 0x3001);
    assert!(s.memory == before);
    assert!(s.running);
}

#[test]
fn step_getc_requests_input_and_delivery_lands_in_r0() {
    let mut s = State::new();
    s.mem_set(0x3000, 0xF020);
    let mut key = None;
    let r = s.step(&mut key).unwrap();
    assert_eq!(r.request, Some(CharRequest::Silent));
    s.getc(b'q');
    assert_eq!(s.registers[0], b'q' as u16);
}

#[test]
fn step_in_requests_an_echoed_read() {
    let mut s = State::new();
    s.mem_set(0x3000, 0xF023);
    let mut key = None;
    let r = s.step(&mut key).unwrap();
    assert_eq!(r.request, Some(CharRequest::Echoed));
}

#[test]
fn step_out_writes_the_low_byte_of_r0() {
    let mut s = State::new();
    s.registers[0] = b'A' as u16;
    s.mem_set(0x3000, 0xF021);
    let mut key = None;
    let r = s.step(&mut key).unwrap();
    assert_eq!(r.out, vec![b'A']);
}

#[test]
fn polling_the_status_register_consumes_the_pending_key() {
    // LDR R1, R2, #0 with R2 aimed at the status register.
    let mut s = State::new();
    s.registers[2] = 0xFE00;
    s.mem_set(0x3000, 0x6280);
    let mut key = Some(b'z');
    s.step(&mut key).unwrap();
    assert_eq!(s.registers[1], 0x8000);
    assert!(s.fneg);
    assert_eq!(s.memory[KEYBOARD_DATA_REGISTER as usize], b'z' as u16);
    assert_eq!(key, None);
}

#[test]
fn polling_the_status_register_without_a_key_reads_idle() {
    let mut s = State::new();
    s.registers[2] = 0xFE00;
    s.mem_set(0x3000, 0x6280);
    let mut key = None;
    s.step(&mut key).unwrap();
    assert_eq!(s.registers[1], 0);
    assert!(s.fzero);
}

#[test]
fn a_step_that_never_polls_leaves_the_key_pending() {
    let mut s = State::new();
    s.registers[2] = 5;
    s.registers[3] = 3;
    s.mem_set(0x3000, 0x1283);
    let mut key = Some(b'k');
    s.step(&mut key).unwrap();
    assert_eq!(key, Some(b'k'));
}

#[test]
fn step_wraps_the_pc_at_the_top_of_memory() {
    // A fetch at 0xFFFF leaves the PC at 0x0000.
    let mut s = State::new();
    s.pc = 0xFFFF;
    s.mem_set(0xFFFF, 0x1283);
    let mut key = None;
    s.step(&mut key).unwrap();
    assert_eq!(s.pc, 0x0000);
}
