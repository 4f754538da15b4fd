use lc3::opcode::{Opcode, Trapcode};

#[test]
fn opcode_decodes_all_sixteen_values() {
    assert_eq!(Opcode::try_from(0), Ok(Opcode::BR));
    assert_eq!(Opcode::try_from(1), Ok(Opcode::ADD));
    assert_eq!(Opcode::try_from(2), Ok(Opcode::LD));
    assert_eq!(Opcode::try_from(3), Ok(Opcode::ST));
    assert_eq!(Opcode::try_from(4), Ok(Opcode::JSR));
    assert_eq!(Opcode::try_from(5), Ok(Opcode::AND));
    assert_eq!(Opcode::try_from(6), Ok(Opcode::LDR));
    assert_eq!(Opcode::try_from(7), Ok(Opcode::STR));
    assert_eq!(Opcode::try_from(8), Ok(Opcode::RTI));
    assert_eq!(Opcode::try_from(9), Ok(Opcode::NOT));
    assert_eq!(Opcode::try_from(10), Ok(Opcode::LDI));
    assert_eq!(Opcode::try_from(11), Ok(Opcode::STI));
    assert_eq!(Opcode::try_from(12), Ok(Opcode::JMP));
    assert_eq!(Opcode::try_from(13), Ok(Opcode::RES));
    assert_eq!(Opcode::try_from(14), Ok(Opcode::LEA));
    assert_eq!(Opcode::try_from(15), Ok(Opcode::TRAP));
}

#[test]
fn opcode_rejects_values_outside_the_table() {
    assert_eq!(Opcode::try_from(16), Err(()));
    assert_eq!(Opcode::try_from(17), Err(()));
    assert_eq!(Opcode::try_from(0xFFFF), Err(()));
}

#[test]
fn trapcode_decodes_the_six_vectors() {
    assert_eq!(Trapcode::try_from(0x20), Ok(Trapcode::GETC));
    assert_eq!(Trapcode::try_from(0x21), Ok(Trapcode::OUT));
    assert_eq!(Trapcode::try_from(0x22), Ok(Trapcode::PUTS));
    assert_eq!(Trapcode::try_from(0x23), Ok(Trapcode::IN));
    assert_eq!(Trapcode::try_from(0x24), Ok(Trapcode::PUTSP));
    assert_eq!(Trapcode::try_from(0x25), Ok(Trapcode::HALT));
}

#[test]
fn trapcode_rejects_unknown_vectors() {
    assert_eq!(Trapcode::try_from(0x1F), Err(()));
    assert_eq!(Trapcode::try_from(0x26), Err(()));
    assert_eq!(Trapcode::try_from(0), Err(()));
    assert_eq!(Trapcode::try_from(0xFF), Err(()));
}
