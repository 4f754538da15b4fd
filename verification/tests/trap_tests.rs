use lc3::engine::{CharRequest, FaultKind};
use lc3::state::State;

#[test]
fn getc_trap_requests_a_silent_read() {
    let mut s = State::new();
    let r = s.trap(0xF020).unwrap();
    assert!(r.out.is_empty());
    assert_eq!(r.request, Some(CharRequest::Silent));
    assert!(s.running);
}

#[test]
fn getc_delivery_writes_r0_and_leaves_the_flags() {
    let mut s = State::new();
    s.registers[5] = 0x8000;
    s.update_flags(5);
    s.getc(b'a');
    assert_eq!(s.registers[0], b'a' as u16);
    assert!(!s.fzero && s.fneg && !s.fpos);
}

#[test]
fn in_trap_requests_an_echoed_read() {
    let mut s = State::new();
    let r = s.trap(0xF023).unwrap();
    assert!(r.out.is_empty());
    assert_eq!(r.request, Some(CharRequest::Echoed));
}

#[test]
fn out_trap_emits_the_low_byte_of_r0() {
    let mut s = State::new();
    s.registers[0] = 0x1241;
    let r = s.trap(0xF021).unwrap();
    assert_eq!(r.out, vec![0x41]);
    assert_eq!(r.request, None);
}

#[test]
fn puts_trap_emits_one_character_per_word() {
    let mut s = State::new();
    s.mem_set(0x4000, b'H' as u16);
    s.mem_set(0x4001, b'i' as u16);
    s.mem_set(0x4002, 0);
    s.registers[0] = 0x4000;
    let r = s.trap(0xF022).unwrap();
    assert_eq!(r.out, b"Hi".to_vec());
    assert_eq!(r.request, None);
}

#[test]
fn puts_trap_on_an_immediate_zero_word_emits_nothing() {
    let mut s = State::new();
    s.registers[0] = 0x4000;
    let r = s.trap(0xF022).unwrap();
    assert!(r.out.is_empty());
}

#[test]
fn putsp_trap_unpacks_low_byte_then_high_byte() {
    // "Hey": 'H' and 'e' packed into one word, 'y' alone in the next.
    let mut s = State::new();
    s.mem_set(0x4000, 0x6548);
    s.mem_set(0x4001, 0x0079);
    s.registers[0] = 0x4000;
    let r = s.trap(0xF024).unwrap();
    assert_eq!(r.out, b"Hey".to_vec());
}

#[test]
fn putsp_trap_stops_at_a_zero_high_byte_without_emitting_it() {
    // The word 0x0041 holds 'A' in its low byte and zero above: only 'A'
    // comes out, never a spurious null.
    let mut s = State::new();
    s.mem_set(0x4000, 0x0041);
    s.mem_set(0x4001, 0x4242);
    s.registers[0] = 0x4000;
    let r = s.trap(0xF024).unwrap();
    assert_eq!(r.out, vec![0x41]);
}

#[test]
fn putsp_trap_stops_at_a_zero_low_byte() {
    let mut s = State::new();
    s.mem_set(0x4000, 0x4100);
    s.registers[0] = 0x4000;
    let r = s.trap(0xF024).unwrap();
    assert!(r.out.is_empty());
}

#[test]
fn halt_trap_clears_the_running_flag() {
    let mut s = State::new();
    let r = s.trap(0xF025).unwrap();
    assert!(r.out.is_empty());
    assert_eq!(r.request, None);
    assert!(!s.running);
}

#[test]
fn unknown_trap_vector_faults_with_the_full_snapshot() {
    let mut s = State::new();
    s.pc = 0x3001;
    s.registers[4] = 0xDEAD;
    let f = s.trap(0xF0FF).unwrap_err();
    assert_eq!(f.kind, FaultKind::UnknownTrap(0xFF));
    assert_eq!(f.pc, 0x3001);
    assert_eq!(f.registers[4], 0xDEAD);
    assert!(f.fzero && !f.fneg && !f.fpos);
    // The machine itself is untouched.
    assert!(s.running);
    assert_eq!(s.pc, 0x3001);
}
