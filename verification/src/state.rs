//! The machine state: register file, program counter, condition flags, the
//! 65536-word memory with its memory-mapped keyboard device, and the running
//! flag, together with the shared decoding helpers (field extraction and
//! sign extension).

use vstd::prelude::*;

verus! {

/// Address of the memory-mapped keyboard status register. Reading it polls
/// the keyboard instead of performing a plain lookup.
pub const KEYBOARD_STATUS_REGISTER: u16 = 0xFE00;

/// Address of the memory-mapped keyboard data register: holds the most
/// recently delivered character code.
pub const KEYBOARD_DATA_REGISTER: u16 = 0xFE02;

/// Number of addressable words: the entire 16-bit address space.
pub const MEMORY_WORDS: usize = 65536;

/// Conventional start address for loaded programs.
pub const PC_START: u16 = 0x3000;

// ---------------------------------------------------------------------------
// Instruction fields
// ---------------------------------------------------------------------------

/// Destination (or, for stores, source) register: bits 11-9.
pub open spec fn dr_of(i: u16) -> u16 {
    (i >> 9) & 0x7
}

/// First source register: bits 8-6 (also the base register field).
pub open spec fn sr1_of(i: u16) -> u16 {
    (i >> 6) & 0x7
}

/// Second source register: bits 2-0.
pub open spec fn sr2_of(i: u16) -> u16 {
    i & 0x7
}

/// Five-bit immediate field: bits 4-0.
pub open spec fn imm5_of(i: u16) -> u16 {
    i & 0x1F
}

/// Six-bit offset field: bits 5-0.
pub open spec fn off6_of(i: u16) -> u16 {
    i & 0x3F
}

/// Nine-bit offset field: bits 8-0.
pub open spec fn off9_of(i: u16) -> u16 {
    i & 0x1FF
}

/// Eleven-bit offset field: bits 10-0.
pub open spec fn off11_of(i: u16) -> u16 {
    i & 0x7FF
}

/// Bit 5: selects the immediate form of ADD and AND.
pub open spec fn imm_mode(i: u16) -> bool {
    (i >> 5) & 1 == 1
}

/// Bit 11: selects the PC-relative form of JSR.
pub open spec fn jsr_offset_mode(i: u16) -> bool {
    (i >> 11) & 1 == 1
}

/// Trap vector: bits 7-0 of a TRAP instruction.
pub open spec fn trap_vector_of(i: u16) -> u16 {
    i & 0xFF
}

/// Opcode selector: the top four bits.
pub open spec fn opcode_bits_of(i: u16) -> u16 {
    i >> 12
}

// ---------------------------------------------------------------------------
// Bit-level facts
// ---------------------------------------------------------------------------

/// A three-bit field always names one of the eight registers.
pub proof fn lemma_and_mask7(x: u16)
    ensures
        x & 0x7 < 8,
{
    assert(x & 0x7 < 8) by (bit_vector);
}

/// A one-bit field is zero or one.
pub proof fn lemma_and_mask1(x: u16)
    ensures
        x & 1 == 0 || x & 1 == 1,
{
    assert(x & 1 == 0 || x & 1 == 1) by (bit_vector);
}

/// The opcode selector is a four-bit value.
pub proof fn lemma_opcode_bits_bound(x: u16)
    ensures
        x >> 12 < 16,
{
    assert(x >> 12 < 16) by (bit_vector);
}

/// Bit 15 is the sign bit of a 16-bit word.
pub proof fn lemma_sign_bit(v: u16)
    ensures
        (v >> 15 == 1) <==> v >= 0x8000,
        v >> 15 == 0 || v >> 15 == 1,
{
    assert(((v >> 15 == 1) <==> v >= 0x8000) && (v >> 15 == 0 || v >> 15 == 1))
        by (bit_vector);
}

// ---------------------------------------------------------------------------
// Word arithmetic and sign extension
// ---------------------------------------------------------------------------

/// Addition modulo 2^16: all address and register arithmetic wraps.
pub open spec fn wadd(x: u16, y: u16) -> u16 {
    vstd::wrapping::u16_specs::wrapping_add(x, y)
}

/// Widen the low `bit_count` bits of `value`, read as two's complement, to a
/// full word: if the field's own sign bit is set, every higher bit of the
/// result is set; otherwise the value is returned unchanged.
pub open spec fn sext_spec(value: u16, bit_count: u16) -> u16 {
    if (value >> ((bit_count - 1) as u16)) & 1 == 1 {
        value | (0xFFFFu16 << bit_count)
    } else {
        value
    }
}

/// Sign-extend a `bit_count`-bit two's-complement field to 16 bits.
pub fn sign_extend(value: u16, bit_count: u16) -> (r: u16)
    requires
        1 <= bit_count <= 15,
    ensures
        r == sext_spec(value, bit_count),
{
    if ((value >> (bit_count - 1)) & 1) == 1 {
        value | (0xFFFFu16 << bit_count)
    } else {
        value
    }
}

/// Sign extension leaves a field with a clear sign bit unchanged, and sets
/// every bit above the field when the sign bit is set. Stated for the four
/// field widths the instruction set uses.
pub proof fn lemma_sign_extend_properties(value: u16, bit_count: u16)
    requires
        bit_count == 5 || bit_count == 6 || bit_count == 9 || bit_count == 11,
        value < (1u16 << bit_count),
    ensures
        (value >> ((bit_count - 1) as u16)) & 1 == 0 ==> sext_spec(value, bit_count) == value,
        (value >> ((bit_count - 1) as u16)) & 1 == 1 ==> forall|j: u16|
            bit_count <= j < 16 ==> #[trigger] (sext_spec(value, bit_count) >> j) & 1 == 1,
{
    assert((value >> ((bit_count - 1) as u16)) & 1 == 1 ==> forall|j: u16|
        bit_count <= j < 16 ==> #[trigger] ((value | (0xFFFFu16 << bit_count)) >> j) & 1 == 1)
        by (bit_vector)
        requires
            bit_count == 5 || bit_count == 6 || bit_count == 9 || bit_count == 11,
            value < (1u16 << bit_count),
    ;
}

/// Extract the destination-register field of an instruction.
pub fn get_dr(instruction: u16) -> (r: u16)
    ensures
        r == dr_of(instruction),
        r < 8,
{
    proof {
        lemma_and_mask7(instruction >> 9);
    }
    (instruction >> 9) & 0x7
}

// ---------------------------------------------------------------------------
// The machine and its mathematical model
// ---------------------------------------------------------------------------

/// The mathematical model of a machine: what every contract speaks of.
#[verifier::ext_equal]
pub ghost struct StateModel {
    pub registers: Seq<u16>,
    pub pc: u16,
    pub fzero: bool,
    pub fneg: bool,
    pub fpos: bool,
    pub memory: Seq<u16>,
    pub running: bool,
}

impl StateModel {
    /// Well-formedness: the register file and memory have their fixed sizes,
    /// and exactly one condition flag is set.
    pub open spec fn wf(self) -> bool {
        &&& self.registers.len() == 8
        &&& self.memory.len() == MEMORY_WORDS
        &&& (self.fzero || self.fneg || self.fpos)
        &&& !(self.fzero && self.fneg)
        &&& !(self.fzero && self.fpos)
        &&& !(self.fneg && self.fpos)
    }
}

/// The machine state of one LC-3 instance.
pub struct State {
    /// General-purpose registers R0 through R7. R7 is the conventional
    /// subroutine-return register but is not otherwise distinguished.
    pub registers: [u16; 8],
    /// Program counter: the address of the next instruction to fetch.
    pub pc: u16,
    /// Condition flag: the last written register value was zero.
    pub fzero: bool,
    /// Condition flag: the last written register value had its sign bit set.
    pub fneg: bool,
    /// Condition flag: the last written register value was positive.
    pub fpos: bool,
    /// The entire 65536-word address space.
    pub memory: [u16; MEMORY_WORDS],
    /// True from construction until a HALT trap executes.
    pub running: bool,
}

impl View for State {
    type V = StateModel;

    open spec fn view(&self) -> StateModel {
        StateModel {
            registers: self.registers@,
            pc: self.pc,
            fzero: self.fzero,
            fneg: self.fneg,
            fpos: self.fpos,
            memory: self.memory@,
            running: self.running,
        }
    }
}

/// The model with exactly the condition flags that `value` gives: ZERO for
/// zero, NEGATIVE when bit 15 is set, POSITIVE otherwise.
pub open spec fn with_flags(m: StateModel, value: u16) -> StateModel {
    StateModel {
        fzero: value == 0,
        fneg: value >= 0x8000,
        fpos: (0 < value && value < 0x8000),
        ..m
    }
}

/// After any flag-setting write, exactly one of the three condition flags
/// is set, and it matches the written value's sign/zero state: ZERO exactly
/// for zero, NEGATIVE exactly when bit 15 is set, POSITIVE otherwise.
pub proof fn lemma_flags_exclusive(m: StateModel, value: u16)
    ensures
        ({
            let f = with_flags(m, value);
            &&& (f.fzero || f.fneg || f.fpos)
            &&& !(f.fzero && f.fneg)
            &&& !(f.fzero && f.fpos)
            &&& !(f.fneg && f.fpos)
            &&& (f.fzero <==> value == 0)
            &&& (f.fneg <==> (value >> 15) & 1 == 1)
            &&& (f.fpos <==> (value != 0 && (value >> 15) & 1 == 0))
        }),
{
    assert((value >= 0x8000 <==> (value >> 15) & 1 == 1) && ((value >> 15) & 1 == 0 || (value
        >> 15) & 1 == 1)) by (bit_vector);
}

/// The model with register `index` set to `value`.
pub open spec fn with_reg(m: StateModel, index: u16, value: u16) -> StateModel {
    StateModel { registers: m.registers.update(index as int, value), ..m }
}

/// Memory after a read at `address`: reading the keyboard status register
/// polls the keyboard, storing the status and the pending character into the
/// device registers; any other address leaves memory unchanged.
pub open spec fn mem_after_read(mem: Seq<u16>, address: u16, key: Option<u8>) -> Seq<u16> {
    if address == KEYBOARD_STATUS_REGISTER {
        match key {
            Option::Some(c) => mem.update(KEYBOARD_STATUS_REGISTER as int, 0x8000u16).update(
                KEYBOARD_DATA_REGISTER as int,
                c as u16,
            ),
            Option::None => mem.update(KEYBOARD_STATUS_REGISTER as int, 0u16),
        }
    } else {
        mem
    }
}

/// The pending keystroke after a read at `address`: a status-register read
/// consumes it.
pub open spec fn key_after_read(address: u16, key: Option<u8>) -> Option<u8> {
    if address == KEYBOARD_STATUS_REGISTER {
        Option::None
    } else {
        key
    }
}

/// The whole model after a read at `address`.
pub open spec fn read_state(m: StateModel, address: u16, key: Option<u8>) -> StateModel {
    StateModel { memory: mem_after_read(m.memory, address, key), ..m }
}

/// The word a read at `address` returns: the stored word, freshly updated
/// when the address is the keyboard status register.
pub open spec fn read_value(mem: Seq<u16>, address: u16, key: Option<u8>) -> u16 {
    mem_after_read(mem, address, key)[address as int]
}

impl State {
    /// Well-formedness of the exec-level state.
    pub open spec fn wf(self) -> bool {
        self@.wf()
    }

    /// A fresh machine: all registers and memory zero, the program counter at
    /// the conventional start address, the ZERO flag set, and running.
    pub fn new() -> (s: State)
        ensures
            s.wf(),
            forall|i: int| 0 <= i < 8 ==> s@.registers[i] == 0,
            s@.pc == PC_START,
            s@.fzero && !s@.fneg && !s@.fpos,
            forall|i: int| 0 <= i < MEMORY_WORDS ==> s@.memory[i] == 0,
            s@.running,
    {
        State {
            registers: [0; 8],
            pc: PC_START,
            fzero: true,
            fneg: false,
            fpos: false,
            memory: [0; MEMORY_WORDS],
            running: true,
        }
    }

    /// Addressed read with the device side effect: if `address` is the
    /// keyboard status register, the pending keystroke `key` (if any) is
    /// consumed into the device registers before the lookup.
    pub fn mem_read(&mut self, address: u16, key: &mut Option<u8>) -> (r: u16)
        ensures
            final(self)@ == read_state(old(self)@, address, *old(key)),
            *final(key) == key_after_read(address, *old(key)),
            r == read_value(old(self)@.memory, address, *old(key)),
    {
        if address == KEYBOARD_STATUS_REGISTER {
            match *key {
                Option::Some(c) => {
                    self.memory[KEYBOARD_STATUS_REGISTER as usize] = 0x8000;
                    self.memory[KEYBOARD_DATA_REGISTER as usize] = c as u16;
                    *key = Option::None;
                },
                Option::None => {
                    self.memory[KEYBOARD_STATUS_REGISTER as usize] = 0;
                },
            }
            proof {
                assert(self@ =~= read_state(old(self)@, address, *old(key)));
            }
        }
        self.memory[address as usize]
    }

    /// Unconditional store: no validation, no device interception.
    pub fn mem_set(&mut self, address: u16, value: u16)
        ensures
            final(self)@ == (StateModel {
                memory: old(self)@.memory.update(address as int, value),
                ..old(self)@
            }),
    {
        self.memory[address as usize] = value;
        proof {
            assert(self@ =~= (StateModel {
                memory: old(self)@.memory.update(address as int, value),
                ..old(self)@
            }));
        }
    }

    /// Recompute the condition flags from the current value of the named
    /// register: exactly one of ZERO, NEGATIVE, POSITIVE comes out set.
    pub fn update_flags(&mut self, register: u16)
        requires
            register < 8,
        ensures
            final(self)@ == with_flags(old(self)@, old(self)@.registers[register as int]),
    {
        let value = self.registers[register as usize];
        proof {
            lemma_sign_bit(value);
        }
        if value == 0 {
            self.fneg = false;
            self.fpos = false;
            self.fzero = true;
        } else if (value >> 15) == 1 {
            self.fzero = false;
            self.fpos = false;
            self.fneg = true;
        } else {
            self.fzero = false;
            self.fneg = false;
            self.fpos = true;
        }
        proof {
            assert(self@ =~= with_flags(old(self)@, old(self)@.registers[register as int]));
        }
    }
}

} // verus!
