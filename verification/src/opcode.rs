//! The closed sets of operation selectors: the sixteen opcodes (one of them
//! the reserved, illegal slot) and the six console-I/O trap vectors, each
//! with its fallible decode from the instruction word's bits.

use vstd::prelude::*;

verus! {

/// The sixteen opcodes, in the order of their four-bit encodings.
#[derive(Clone, Copy, Debug, PartialEq, Eq, Structural)]
pub enum Opcode {
    /// Conditional branch.
    BR,
    /// Addition, register or immediate mode.
    ADD,
    /// PC-relative load.
    LD,
    /// PC-relative store.
    ST,
    /// Jump to subroutine, PC-relative or through a register.
    JSR,
    /// Bitwise AND, register or immediate mode.
    AND,
    /// Base-plus-offset load.
    LDR,
    /// Base-plus-offset store.
    STR,
    /// Return from interrupt: unimplemented, always a fatal error.
    RTI,
    /// Bitwise complement.
    NOT,
    /// Indirect load.
    LDI,
    /// Indirect store.
    STI,
    /// Jump through a register.
    JMP,
    /// The reserved, illegal opcode slot.
    RES,
    /// Load effective address.
    LEA,
    /// Trap to a console-I/O service routine.
    TRAP,
}

/// The six console-I/O trap vectors.
#[derive(Clone, Copy, Debug, PartialEq, Eq, Structural)]
pub enum Trapcode {
    /// Read one character without echoing it (vector 0x20).
    GETC,
    /// Write the low byte of R0 (vector 0x21).
    OUT,
    /// Write a null-terminated string, one character per word (vector 0x22).
    PUTS,
    /// Prompt, read one character, and echo it (vector 0x23).
    IN,
    /// Write a string packed two characters per word (vector 0x24).
    PUTSP,
    /// Stop the machine (vector 0x25).
    HALT,
}

/// The four-bit encoding of each opcode.
pub open spec fn opcode_num(op: Opcode) -> u16 {
    match op {
        Opcode::BR => 0,
        Opcode::ADD => 1,
        Opcode::LD => 2,
        Opcode::ST => 3,
        Opcode::JSR => 4,
        Opcode::AND => 5,
        Opcode::LDR => 6,
        Opcode::STR => 7,
        Opcode::RTI => 8,
        Opcode::NOT => 9,
        Opcode::LDI => 10,
        Opcode::STI => 11,
        Opcode::JMP => 12,
        Opcode::RES => 13,
        Opcode::LEA => 14,
        Opcode::TRAP => 15,
    }
}

/// The eight-bit vector of each trap routine.
pub open spec fn trap_num(t: Trapcode) -> u16 {
    match t {
        Trapcode::GETC => 0x20,
        Trapcode::OUT => 0x21,
        Trapcode::PUTS => 0x22,
        Trapcode::IN => 0x23,
        Trapcode::PUTSP => 0x24,
        Trapcode::HALT => 0x25,
    }
}

impl Opcode {
    /// Decode a numeric opcode: every value below sixteen names an opcode
    /// (the reserved slot included); anything else is refused.
    pub fn try_from(value: u16) -> (r: Result<Opcode, ()>)
        ensures
            value < 16 <==> r is Ok,
            r matches Ok(op) ==> opcode_num(op) == value,
    {
        match value {
            0 => Ok(Opcode::BR),
            1 => Ok(Opcode::ADD),
            2 => Ok(Opcode::LD),
            3 => Ok(Opcode::ST),
            4 => Ok(Opcode::JSR),
            5 => Ok(Opcode::AND),
            6 => Ok(Opcode::LDR),
            7 => Ok(Opcode::STR),
            8 => Ok(Opcode::RTI),
            9 => Ok(Opcode::NOT),
            10 => Ok(Opcode::LDI),
            11 => Ok(Opcode::STI),
            12 => Ok(Opcode::JMP),
            13 => Ok(Opcode::RES),
            14 => Ok(Opcode::LEA),
            15 => Ok(Opcode::TRAP),
            _ => Err(()),
        }
    }
}

impl Trapcode {
    /// Decode a trap vector: exactly the six defined vectors succeed.
    pub fn try_from(value: u16) -> (r: Result<Trapcode, ()>)
        ensures
            (0x20 <= value <= 0x25) <==> r is Ok,
            r matches Ok(t) ==> trap_num(t) == value,
    {
        match value {
            0x20 => Ok(Trapcode::GETC),
            0x21 => Ok(Trapcode::OUT),
            0x22 => Ok(Trapcode::PUTS),
            0x23 => Ok(Trapcode::IN),
            0x24 => Ok(Trapcode::PUTSP),
            0x25 => Ok(Trapcode::HALT),
            _ => Err(()),
        }
    }
}

} // verus!
