use lc3::state::{
    KEYBOARD_DATA_REGISTER, KEYBOARD_STATUS_REGISTER, PC_START, State, get_dr, sign_extend,
};

#[test]
fn new_machine_starts_clean() {
    let s = State::new();
    assert_eq!(s.registers, [0u16; 8]);
    assert_eq!(s.pc, PC_START);
    assert!(s.fzero && !s.fneg && !s.fpos);
    assert!(s.running);
    assert_eq!(s.memory[0], 0);
    assert_eq!(s.memory[0x3000], 0);
    assert_eq!(s.memory[0xFFFF], 0);
}

#[test]
fn sign_extend_five_bits() {
    // Sign bit set: the upper eleven bits come out all ones.
    assert_eq!(sign_extend(0x1F, 5), 0xFFFF);
    assert_eq!(sign_extend(0x10, 5), 0xFFF0);
    // Sign bit clear: unchanged.
    assert_eq!(sign_extend(0x0F, 5), 0x000F);
    assert_eq!(sign_extend(0, 5), 0);
}

#[test]
fn sign_extend_six_bits() {
    assert_eq!(sign_extend(0x20, 6), 0xFFE0);
    assert_eq!(sign_extend(0x3F, 6), 0xFFFF);
    assert_eq!(sign_extend(0x1F, 6), 0x001F);
}

#[test]
fn sign_extend_nine_bits() {
    assert_eq!(sign_extend(0x100, 9), 0xFF00);
    assert_eq!(sign_extend(0x1FF, 9), 0xFFFF);
    assert_eq!(sign_extend(0x0FF, 9), 0x00FF);
}

#[test]
fn sign_extend_eleven_bits() {
    assert_eq!(sign_extend(0x400, 11), 0xFC00);
    assert_eq!(sign_extend(0x7FF, 11), 0xFFFF);
    assert_eq!(sign_extend(0x3FF, 11), 0x03FF);
}

#[test]
fn get_dr_extracts_bits_eleven_to_nine() {
    assert_eq!(get_dr(0x1283), 1);
    assert_eq!(get_dr(0x0E00), 7);
    assert_eq!(get_dr(0xF1FF), 0);
}

#[test]
fn update_flags_zero_sets_exactly_the_zero_flag() {
    let mut s = State::new();
    s.fzero = false;
    s.fpos = true;
    s.registers[3] = 0;
    s.update_flags(3);
    assert!(s.fzero && !s.fneg && !s.fpos);
}

#[test]
fn update_flags_sign_bit_sets_exactly_the_negative_flag() {
    let mut s = State::new();
    s.registers[3] = 0x8000;
    s.update_flags(3);
    assert!(!s.fzero && s.fneg && !s.fpos);
}

#[test]
fn update_flags_positive_sets_exactly_the_positive_flag() {
    let mut s = State::new();
    s.registers[3] = 0x7FFF;
    s.update_flags(3);
    assert!(!s.fzero && !s.fneg && s.fpos);
}

#[test]
fn mem_read_of_plain_storage_is_a_pure_lookup() {
    let mut s = State::new();
    s.mem_set(0x4000, 0xBEEF);
    let mut key = Some(b'a');
    assert_eq!(s.mem_read(0x4000, &mut key), 0xBEEF);
    // The keystroke is untouched: no status-register read happened.
    assert_eq!(key, Some(b'a'));
    assert_eq!(s.memory[KEYBOARD_STATUS_REGISTER as usize], 0);
}

#[test]
fn mem_read_of_status_register_consumes_the_pending_key() {
    let mut s = State::new();
    let mut key = Some(b'a');
    let status = s.mem_read(KEYBOARD_STATUS_REGISTER, &mut key);
    assert_eq!(status, 0x8000);
    assert_eq!(s.memory[KEYBOARD_DATA_REGISTER as usize], b'a' as u16);
    assert_eq!(key, None);
}

#[test]
fn mem_read_of_status_register_without_a_key_reports_idle() {
    let mut s = State::new();
    s.mem_set(KEYBOARD_STATUS_REGISTER, 0x8000);
    let mut key = None;
    let status = s.mem_read(KEYBOARD_STATUS_REGISTER, &mut key);
    assert_eq!(status, 0);
    assert_eq!(s.memory[KEYBOARD_STATUS_REGISTER as usize], 0);
}

#[test]
fn mem_read_of_data_register_is_a_pure_lookup() {
    let mut s = State::new();
    s.mem_set(KEYBOARD_DATA_REGISTER, 42);
    let mut key = Some(b'x');
    assert_eq!(s.mem_read(KEYBOARD_DATA_REGISTER, &mut key), 42);
    assert_eq!(key, Some(b'x'));
}

#[test]
fn mem_set_to_the_device_addresses_is_not_intercepted() {
    let mut s = State::new();
    s.mem_set(KEYBOARD_STATUS_REGISTER, 7);
    s.mem_set(KEYBOARD_DATA_REGISTER, 9);
    assert_eq!(s.memory[KEYBOARD_STATUS_REGISTER as usize], 7);
    assert_eq!(s.memory[KEYBOARD_DATA_REGISTER as usize], 9);
}
