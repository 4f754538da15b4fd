//! The execution engine: the per-opcode semantics, the console-I/O trap
//! routines, and the fetch/decode/execute step. Every opcode's effect is
//! stated as a function over the machine model, and each handler is proved
//! to realise it.

use vstd::prelude::*;

use crate::opcode::{Opcode, Trapcode};
use crate::state::{
    KEYBOARD_STATUS_REGISTER, MEMORY_WORDS, State, StateModel, dr_of, get_dr, imm5_of, imm_mode,
    jsr_offset_mode, key_after_read, lemma_and_mask1, lemma_and_mask7, lemma_opcode_bits_bound,
    off11_of, off6_of, off9_of, opcode_bits_of, read_state, read_value, sext_spec, sign_extend,
    sr1_of, sr2_of, trap_vector_of, wadd, with_flags, with_reg,
};

verus! {

// ---------------------------------------------------------------------------
// Opcode semantics over the model
// ---------------------------------------------------------------------------

/// The word ADD writes: SR1 plus either SR2 or the sign-extended immediate,
/// modulo 2^16.
pub open spec fn add_value(m: StateModel, i: u16) -> u16 {
    if imm_mode(i) {
        wadd(m.registers[sr1_of(i) as int], sext_spec(imm5_of(i), 5))
    } else {
        wadd(m.registers[sr1_of(i) as int], m.registers[sr2_of(i) as int])
    }
}

/// Effect of ADD: write the sum into DR and recompute the flags from it.
pub open spec fn add_step(m: StateModel, i: u16) -> StateModel {
    with_flags(with_reg(m, dr_of(i), add_value(m, i)), add_value(m, i))
}

/// The word AND writes: SR1 and-ed with SR2 or with the sign-extended
/// immediate.
pub open spec fn and_value(m: StateModel, i: u16) -> u16 {
    if imm_mode(i) {
        m.registers[sr1_of(i) as int] & sext_spec(imm5_of(i), 5)
    } else {
        m.registers[sr1_of(i) as int] & m.registers[sr2_of(i) as int]
    }
}

/// Effect of AND: write the conjunction into DR and recompute the flags.
pub open spec fn and_step(m: StateModel, i: u16) -> StateModel {
    with_flags(with_reg(m, dr_of(i), and_value(m, i)), and_value(m, i))
}

/// Effect of NOT: write the bitwise complement of SR into DR and recompute
/// the flags.
pub open spec fn not_step(m: StateModel, i: u16) -> StateModel {
    let v = !m.registers[sr1_of(i) as int];
    with_flags(with_reg(m, dr_of(i), v), v)
}

/// Whether BR's requested flags match the current condition flags.
pub open spec fn branch_taken(m: StateModel, i: u16) -> bool {
    ((i >> 11) & 1 == 1 && m.fneg) || ((i >> 10) & 1 == 1 && m.fzero) || ((i >> 9) & 1 == 1
        && m.fpos)
}

/// Effect of BR: when taken, the PC moves by the sign-extended nine-bit
/// offset; the flags are left alone.
pub open spec fn br_step(m: StateModel, i: u16) -> StateModel {
    if branch_taken(m, i) {
        StateModel { pc: wadd(m.pc, sext_spec(off9_of(i), 9)), ..m }
    } else {
        m
    }
}

/// Effect of JMP: the PC becomes the base register's value.
pub open spec fn jmp_step(m: StateModel, i: u16) -> StateModel {
    StateModel { pc: m.registers[sr1_of(i) as int], ..m }
}

/// Effect of JSR/JSRR: R7 receives the post-increment PC, then the PC moves
/// by the sign-extended eleven-bit offset (JSR) or to the base register's
/// value as it stands after the link is written (JSRR).
pub open spec fn jsr_step(m: StateModel, i: u16) -> StateModel {
    let linked = with_reg(m, 7, m.pc);
    if jsr_offset_mode(i) {
        StateModel { pc: wadd(m.pc, sext_spec(off11_of(i), 11)), ..linked }
    } else {
        StateModel { pc: linked.registers[sr1_of(i) as int], ..linked }
    }
}

/// Effect of LEA: DR receives the PC-relative address itself; the flags are
/// recomputed from it.
pub open spec fn lea_step(m: StateModel, i: u16) -> StateModel {
    let v = wadd(m.pc, sext_spec(off9_of(i), 9));
    with_flags(with_reg(m, dr_of(i), v), v)
}

/// Effect of LD: read at the PC-relative address (with the device side
/// effect), write the word into DR, and recompute the flags.
pub open spec fn ld_step(m: StateModel, i: u16, k: Option<u8>) -> StateModel {
    let a = wadd(m.pc, sext_spec(off9_of(i), 9));
    let v = read_value(m.memory, a, k);
    with_flags(with_reg(read_state(m, a, k), dr_of(i), v), v)
}

/// The pending keystroke after LD.
pub open spec fn ld_key(m: StateModel, i: u16, k: Option<u8>) -> Option<u8> {
    key_after_read(wadd(m.pc, sext_spec(off9_of(i), 9)), k)
}

/// Effect of LDR: like LD with a base-plus-offset address.
pub open spec fn ldr_step(m: StateModel, i: u16, k: Option<u8>) -> StateModel {
    let a = wadd(m.registers[sr1_of(i) as int], sext_spec(off6_of(i), 6));
    let v = read_value(m.memory, a, k);
    with_flags(with_reg(read_state(m, a, k), dr_of(i), v), v)
}

/// The pending keystroke after LDR.
pub open spec fn ldr_key(m: StateModel, i: u16, k: Option<u8>) -> Option<u8> {
    key_after_read(wadd(m.registers[sr1_of(i) as int], sext_spec(off6_of(i), 6)), k)
}

/// Effect of LDI: read the pointer word at the PC-relative address, then
/// read through it; both reads carry the device side effect.
pub open spec fn ldi_step(m: StateModel, i: u16, k: Option<u8>) -> StateModel {
    let a1 = wadd(m.pc, sext_spec(off9_of(i), 9));
    let m1 = read_state(m, a1, k);
    let addr = read_value(m.memory, a1, k);
    let k1 = key_after_read(a1, k);
    let v = read_value(m1.memory, addr, k1);
    with_flags(with_reg(read_state(m1, addr, k1), dr_of(i), v), v)
}

/// The pending keystroke after LDI's two reads.
pub open spec fn ldi_key(m: StateModel, i: u16, k: Option<u8>) -> Option<u8> {
    let a1 = wadd(m.pc, sext_spec(off9_of(i), 9));
    let addr = read_value(m.memory, a1, k);
    key_after_read(addr, key_after_read(a1, k))
}

/// Effect of ST: store SR at the PC-relative address; a pure store, no
/// device side effect.
pub open spec fn st_step(m: StateModel, i: u16) -> StateModel {
    let a = wadd(m.pc, sext_spec(off9_of(i), 9));
    StateModel { memory: m.memory.update(a as int, m.registers[dr_of(i) as int]), ..m }
}

/// Effect of STR: store SR at the base-plus-offset address.
pub open spec fn str_step(m: StateModel, i: u16) -> StateModel {
    let a = wadd(m.registers[sr1_of(i) as int], sext_spec(off6_of(i), 6));
    StateModel { memory: m.memory.update(a as int, m.registers[dr_of(i) as int]), ..m }
}

/// Effect of STI: read the pointer word at the PC-relative address (with the
/// device side effect), then store SR through it.
pub open spec fn sti_step(m: StateModel, i: u16, k: Option<u8>) -> StateModel {
    let a1 = wadd(m.pc, sext_spec(off9_of(i), 9));
    let m1 = read_state(m, a1, k);
    let addr = read_value(m.memory, a1, k);
    StateModel { memory: m1.memory.update(addr as int, m.registers[dr_of(i) as int]), ..m1 }
}

/// The pending keystroke after STI's pointer read.
pub open spec fn sti_key(m: StateModel, i: u16, k: Option<u8>) -> Option<u8> {
    key_after_read(wadd(m.pc, sext_spec(off9_of(i), 9)), k)
}

// ---------------------------------------------------------------------------
// The opcode handlers
// ---------------------------------------------------------------------------

impl State {
    /// ADD: DR = SR1 + SR2, or DR = SR1 + sign-extend(imm5), modulo 2^16.
    pub fn add(&mut self, instruction: u16)
        ensures
            final(self)@ == add_step(old(self)@, instruction),
            old(self).wf() ==> final(self).wf(),
    {
        let dr = get_dr(instruction);
        let sr1 = (instruction >> 6) & 0x7;
        proof {
            lemma_and_mask7(instruction >> 6);
            lemma_and_mask1(instruction >> 5);
        }
        let value: u16;
        if (instruction >> 5) & 1 == 0 {
            let sr2 = instruction & 0x7;
            proof {
                lemma_and_mask7(instruction);
            }
            value = self.registers[sr1 as usize].wrapping_add(self.registers[sr2 as usize]);
        } else {
            let imm5 = instruction & 0x1F;
            value = self.registers[sr1 as usize].wrapping_add(sign_extend(imm5, 5));
        }
        self.registers[dr as usize] = value;
        self.update_flags(dr);
        proof {
            assert(self@ =~= add_step(old(self)@, instruction));
        }
    }

    /// AND: DR = SR1 & SR2, or DR = SR1 & sign-extend(imm5).
    pub fn and(&mut self, instruction: u16)
        ensures
            final(self)@ == and_step(old(self)@, instruction),
            old(self).wf() ==> final(self).wf(),
    {
        let dr = get_dr(instruction);
        let sr1 = (instruction >> 6) & 0x7;
        proof {
            lemma_and_mask7(instruction >> 6);
            lemma_and_mask1(instruction >> 5);
        }
        let value: u16;
        if (instruction >> 5) & 1 == 0 {
            let sr2 = instruction & 0x7;
            proof {
                lemma_and_mask7(instruction);
            }
            value = self.registers[sr1 as usize] & self.registers[sr2 as usize];
        } else {
            let imm5 = instruction & 0x1F;
            value = self.registers[sr1 as usize] & sign_extend(imm5, 5);
        }
        self.registers[dr as usize] = value;
        self.update_flags(dr);
        proof {
            assert(self@ =~= and_step(old(self)@, instruction));
        }
    }

    /// NOT: DR = bitwise complement of SR.
    pub fn not(&mut self, instruction: u16)
        ensures
            final(self)@ == not_step(old(self)@, instruction),
            old(self).wf() ==> final(self).wf(),
    {
        let dr = get_dr(instruction);
        let sr = (instruction >> 6) & 0x7;
        proof {
            lemma_and_mask7(instruction >> 6);
        }
        let value = !self.registers[sr as usize];
        self.registers[dr as usize] = value;
        self.update_flags(dr);
        proof {
            assert(self@ =~= not_step(old(self)@, instruction));
        }
    }

    /// BR: if any requested flag matches the current flags, move the PC by
    /// the sign-extended nine-bit offset.
    pub fn conditional_branch(&mut self, instruction: u16)
        ensures
            final(self)@ == br_step(old(self)@, instruction),
            old(self).wf() ==> final(self).wf(),
    {
        let n = (instruction >> 11) & 0x1;
        let z = (instruction >> 10) & 0x1;
        let p = (instruction >> 9) & 0x1;
        if (n == 1 && self.fneg) || (z == 1 && self.fzero) || (p == 1 && self.fpos) {
            let offset = sign_extend(instruction & 0x1FF, 9);
            self.pc = self.pc.wrapping_add(offset);
        }
        proof {
            assert(self@ =~= br_step(old(self)@, instruction));
        }
    }

    /// JMP: the PC becomes the base register's value (base 7 is the
    /// conventional RET, not otherwise distinguished).
    pub fn jump(&mut self, instruction: u16)
        ensures
            final(self)@ == jmp_step(old(self)@, instruction),
            old(self).wf() ==> final(self).wf(),
    {
        let base_register = (instruction >> 6) & 0x7;
        proof {
            lemma_and_mask7(instruction >> 6);
        }
        self.pc = self.registers[base_register as usize];
        proof {
            assert(self@ =~= jmp_step(old(self)@, instruction));
        }
    }

    /// JSR/JSRR: link the post-increment PC into R7, then jump PC-relative
    /// (bit 11 set) or through the base register.
    pub fn jump_to_subroutine(&mut self, instruction: u16)
        ensures
            final(self)@ == jsr_step(old(self)@, instruction),
            old(self).wf() ==> final(self).wf(),
    {
        self.registers[7] = self.pc;
        proof {
            lemma_and_mask1(instruction >> 11);
            lemma_and_mask7(instruction >> 6);
        }
        if (instruction >> 11) & 1 == 0 {
            let base_register = (instruction >> 6) & 0x7;
            self.pc = self.registers[base_register as usize];
        } else {
            let offset = sign_extend(instruction & 0x7FF, 11);
            self.pc = self.pc.wrapping_add(offset);
        }
        proof {
            assert(self@ =~= jsr_step(old(self)@, instruction));
        }
    }

    /// LEA: DR receives the PC-relative address itself.
    pub fn load_effective_address(&mut self, instruction: u16)
        ensures
            final(self)@ == lea_step(old(self)@, instruction),
            old(self).wf() ==> final(self).wf(),
    {
        let dr = get_dr(instruction);
        let offset = sign_extend(instruction & 0x1FF, 9);
        let value = self.pc.wrapping_add(offset);
        self.registers[dr as usize] = value;
        self.update_flags(dr);
        proof {
            assert(self@ =~= lea_step(old(self)@, instruction));
        }
    }

    /// LD: DR receives the word at the PC-relative address.
    pub fn load(&mut self, instruction: u16, key: &mut Option<u8>)
        ensures
            final(self)@ == ld_step(old(self)@, instruction, *old(key)),
            *final(key) == ld_key(old(self)@, instruction, *old(key)),
            old(self).wf() ==> final(self).wf(),
    {
        let dr = get_dr(instruction);
        let offset = sign_extend(instruction & 0x1FF, 9);
        let value = self.mem_read(self.pc.wrapping_add(offset), key);
        self.registers[dr as usize] = value;
        self.update_flags(dr);
        proof {
            assert(self@ =~= ld_step(old(self)@, instruction, *old(key)));
        }
    }

    /// LDR: DR receives the word at base register plus sign-extended six-bit
    /// offset.
    pub fn load_base_plus_offset(&mut self, instruction: u16, key: &mut Option<u8>)
        ensures
            final(self)@ == ldr_step(old(self)@, instruction, *old(key)),
            *final(key) == ldr_key(old(self)@, instruction, *old(key)),
            old(self).wf() ==> final(self).wf(),
    {
        let dr = get_dr(instruction);
        let base_register = (instruction >> 6) & 0x7;
        proof {
            lemma_and_mask7(instruction >> 6);
        }
        let offset = sign_extend(instruction & 0x3F, 6);
        let value = self.mem_read(self.registers[base_register as usize].wrapping_add(offset), key);
        self.registers[dr as usize] = value;
        self.update_flags(dr);
        proof {
            assert(self@ =~= ldr_step(old(self)@, instruction, *old(key)));
        }
    }

    /// LDI: read the pointer word at the PC-relative address, then load DR
    /// through it.
    pub fn load_indirect(&mut self, instruction: u16, key: &mut Option<u8>)
        ensures
            final(self)@ == ldi_step(old(self)@, instruction, *old(key)),
            *final(key) == ldi_key(old(self)@, instruction, *old(key)),
            old(self).wf() ==> final(self).wf(),
    {
        let dr = get_dr(instruction);
        let offset = sign_extend(instruction & 0x1FF, 9);
        let address = self.mem_read(self.pc.wrapping_add(offset), key);
        let value = self.mem_read(address, key);
        self.registers[dr as usize] = value;
        self.update_flags(dr);
        proof {
            assert(self@ =~= ldi_step(old(self)@, instruction, *old(key)));
        }
    }

    /// ST: store SR at the PC-relative address.
    pub fn store(&mut self, instruction: u16)
        ensures
            final(self)@ == st_step(old(self)@, instruction),
            old(self).wf() ==> final(self).wf(),
    {
        let sr = (instruction >> 9) & 0x7;
        proof {
            lemma_and_mask7(instruction >> 9);
        }
        let offset = sign_extend(instruction & 0x1FF, 9);
        let address = self.pc.wrapping_add(offset);
        let value = self.registers[sr as usize];
        self.mem_set(address, value);
        proof {
            assert(self@ =~= st_step(old(self)@, instruction));
        }
    }

    /// STR: store SR at base register plus sign-extended six-bit offset.
    pub fn store_base_plus_offset(&mut self, instruction: u16)
        ensures
            final(self)@ == str_step(old(self)@, instruction),
            old(self).wf() ==> final(self).wf(),
    {
        let sr = (instruction >> 9) & 0x7;
        let base_register = (instruction >> 6) & 0x7;
        proof {
            lemma_and_mask7(instruction >> 9);
            lemma_and_mask7(instruction >> 6);
        }
        let offset = sign_extend(instruction & 0x3F, 6);
        let address = self.registers[base_register as usize].wrapping_add(offset);
        let value = self.registers[sr as usize];
        self.mem_set(address, value);
        proof {
            assert(self@ =~= str_step(old(self)@, instruction));
        }
    }

    /// STI: read the pointer word at the PC-relative address, then store SR
    /// through it.
    pub fn store_indirect(&mut self, instruction: u16, key: &mut Option<u8>)
        ensures
            final(self)@ == sti_step(old(self)@, instruction, *old(key)),
            *final(key) == sti_key(old(self)@, instruction, *old(key)),
            old(self).wf() ==> final(self).wf(),
    {
        let sr = (instruction >> 9) & 0x7;
        proof {
            lemma_and_mask7(instruction >> 9);
        }
        let offset = sign_extend(instruction & 0x1FF, 9);
        let address = self.mem_read(self.pc.wrapping_add(offset), key);
        let value = self.registers[sr as usize];
        self.mem_set(address, value);
        proof {
            assert(self@ =~= sti_step(old(self)@, instruction, *old(key)));
        }
    }
}

// ---------------------------------------------------------------------------
// Step results: output, input requests, and fatal faults
// ---------------------------------------------------------------------------

/// A console read that a trap asked for. The caller reads one byte from the
/// input stream and hands it to [`State::getc`]; for `Echoed` it first
/// prompts, and echoes the byte afterwards.
#[derive(Clone, Copy, Debug, PartialEq, Eq, Structural)]
pub enum CharRequest {
    /// One byte, not echoed (the GETC trap).
    Silent,
    /// Prompt, one byte, echoed (the IN trap).
    Echoed,
}

/// What one executed instruction asks of the console: bytes to write (and
/// flush), and at most one read to perform.
#[derive(Debug)]
pub struct StepOutput {
    /// Bytes to write to the output stream, in order.
    pub out: Vec<u8>,
    /// A read to perform after writing, if the instruction needs one.
    pub request: Option<CharRequest>,
}

/// The two fatal decode errors.
#[derive(Clone, Copy, Debug, PartialEq, Eq, Structural)]
pub enum FaultKind {
    /// The reserved opcode, RTI, or (defensively) a value outside the
    /// four-bit table; carries the offending opcode value.
    IllegalOpcode(u16),
    /// A TRAP vector outside the six defined routines; carries the vector.
    UnknownTrap(u16),
}

/// A fatal decode error with the full diagnostic snapshot: the offending
/// code, the register file, the PC, and the condition flags.
#[derive(Clone, Copy, Debug)]
pub struct Fault {
    /// Which fatal condition was hit, with the offending code.
    pub kind: FaultKind,
    /// The register file at the fault.
    pub registers: [u16; 8],
    /// The program counter at the fault (already past the fetched word).
    pub pc: u16,
    /// The ZERO flag at the fault.
    pub fzero: bool,
    /// The NEGATIVE flag at the fault.
    pub fneg: bool,
    /// The POSITIVE flag at the fault.
    pub fpos: bool,
}

/// The fault is `kind` and snapshots the machine `m`.
pub open spec fn fault_matches(f: Fault, m: StateModel, kind: FaultKind) -> bool {
    &&& f.kind == kind
    &&& f.registers@ == m.registers
    &&& f.pc == m.pc
    &&& f.fzero == m.fzero
    &&& f.fneg == m.fneg
    &&& f.fpos == m.fpos
}

/// The result succeeded with exactly these bytes and this read request.
pub open spec fn ok_with(
    r: Result<StepOutput, Fault>,
    bytes: Seq<u8>,
    request: Option<CharRequest>,
) -> bool {
    r matches Ok(o) && o.out@ == bytes && o.request == request
}

/// The result carries no output and no read request.
pub open spec fn ok_empty(r: Result<StepOutput, Fault>) -> bool {
    ok_with(r, Seq::<u8>::empty(), Option::None)
}

/// The result is the fault `kind`, snapshotting the machine `m`.
pub open spec fn fails_with(r: Result<StepOutput, Fault>, m: StateModel, kind: FaultKind) -> bool {
    r matches Err(f) && fault_matches(f, m, kind)
}

// ---------------------------------------------------------------------------
// The console-I/O trap routines
// ---------------------------------------------------------------------------

/// The bytes PUTS writes: one character per word, the low byte of each,
/// from `address` up to the first zero word, visiting at most `budget`
/// words (the address wraps, so one pass over the whole memory bounds it).
pub open spec fn puts_bytes(mem: Seq<u16>, address: u16, budget: nat) -> Seq<u8>
    decreases budget,
{
    if budget == 0 {
        Seq::<u8>::empty()
    } else {
        let w = mem[address as int];
        if w == 0 {
            Seq::<u8>::empty()
        } else {
            seq![(w & 0xFF) as u8] + puts_bytes(mem, wadd(address, 1), (budget - 1) as nat)
        }
    }
}

/// The bytes PUTSP writes: two characters per word, low byte then high
/// byte, stopping at the first zero byte in either position.
pub open spec fn putsp_bytes(mem: Seq<u16>, address: u16, budget: nat) -> Seq<u8>
    decreases budget,
{
    if budget == 0 {
        Seq::<u8>::empty()
    } else {
        let w = mem[address as int];
        let lo = w & 0xFF;
        let hi = w >> 8;
        if lo == 0 {
            Seq::<u8>::empty()
        } else if hi == 0 {
            seq![lo as u8]
        } else {
            seq![lo as u8, hi as u8] + putsp_bytes(mem, wadd(address, 1), (budget - 1) as nat)
        }
    }
}

/// Effect and result of a TRAP instruction on the post-fetch machine `pre`:
/// which routine runs is decided by the low eight bits, an unknown vector is
/// the fatal case.
pub open spec fn trap_post(
    pre: StateModel,
    post: StateModel,
    i: u16,
    r: Result<StepOutput, Fault>,
) -> bool {
    let code = trap_vector_of(i);
    if code == 0x20 {
        // GETC: ask for one byte, unechoed; R0 is written on delivery.
        post == pre && ok_with(r, Seq::<u8>::empty(), Some(CharRequest::Silent))
    } else if code == 0x21 {
        // OUT: the low byte of R0.
        post == pre && ok_with(r, seq![(pre.registers[0] & 0xFF) as u8], Option::None)
    } else if code == 0x22 {
        // PUTS: the null-terminated word string addressed by R0.
        post == pre && ok_with(
            r,
            puts_bytes(pre.memory, pre.registers[0], MEMORY_WORDS as nat),
            Option::None,
        )
    } else if code == 0x23 {
        // IN: prompt, one byte, echoed; R0 is written on delivery.
        post == pre && ok_with(r, Seq::<u8>::empty(), Some(CharRequest::Echoed))
    } else if code == 0x24 {
        // PUTSP: the packed byte string addressed by R0.
        post == pre && ok_with(
            r,
            putsp_bytes(pre.memory, pre.registers[0], MEMORY_WORDS as nat),
            Option::None,
        )
    } else if code == 0x25 {
        // HALT: clear the running flag.
        post == (StateModel { running: false, ..pre }) && ok_empty(r)
    } else {
        // Unknown vector: fatal, nothing mutated.
        post == pre && fails_with(r, pre, FaultKind::UnknownTrap(code))
    }
}

impl State {
    /// Deliver one input byte: store it into R0. This completes a GETC or
    /// IN trap; the flags are not touched.
    pub fn getc(&mut self, byte: u8)
        ensures
            final(self)@ == with_reg(old(self)@, 0, byte as u16),
            old(self).wf() ==> final(self).wf(),
    {
        self.registers[0] = byte as u16;
        proof {
            assert(self@ =~= with_reg(old(self)@, 0, byte as u16));
        }
    }

    /// OUT: the low byte of R0.
    fn out(&self) -> (b: Vec<u8>)
        ensures
            b@ == seq![(self@.registers[0] & 0xFF) as u8],
    {
        let mut b: Vec<u8> = Vec::new();
        b.push((self.registers[0] & 0xFF) as u8);
        proof {
            assert(b@ =~= seq![(self@.registers[0] & 0xFF) as u8]);
        }
        b
    }

    /// PUTS: collect the characters of the null-terminated word string
    /// addressed by R0, one pass over memory at most.
    fn puts(&self) -> (out: Vec<u8>)
        ensures
            out@ == puts_bytes(self@.memory, self@.registers[0], MEMORY_WORDS as nat),
    {
        let ghost total = puts_bytes(self@.memory, self@.registers[0], MEMORY_WORDS as nat);
        let mut out: Vec<u8> = Vec::new();
        let mut index: u16 = self.registers[0];
        let mut remaining: usize = MEMORY_WORDS;
        proof {
            assert(out@ + puts_bytes(self@.memory, index, remaining as nat) =~= total);
        }
        while remaining > 0 && self.memory[index as usize] != 0
            invariant
                remaining <= MEMORY_WORDS,
                out@ + puts_bytes(self@.memory, index, remaining as nat) == total,
            decreases remaining,
        {
            let w = self.memory[index as usize];
            out.push((w & 0xFF) as u8);
            proof {
                assert(out@ + puts_bytes(self@.memory, wadd(index, 1), (remaining - 1) as nat)
                    =~= total);
            }
            index = index.wrapping_add(1);
            remaining = remaining - 1;
        }
        proof {
            assert(out@ =~= total);
        }
        out
    }

    /// PUTSP: collect the characters of the packed byte string addressed by
    /// R0, stopping at the first zero byte in either position.
    fn putsp(&self) -> (out: Vec<u8>)
        ensures
            out@ == putsp_bytes(self@.memory, self@.registers[0], MEMORY_WORDS as nat),
    {
        let ghost total = putsp_bytes(self@.memory, self@.registers[0], MEMORY_WORDS as nat);
        let mut out: Vec<u8> = Vec::new();
        let mut index: u16 = self.registers[0];
        let mut remaining: usize = MEMORY_WORDS;
        let mut going: bool = true;
        proof {
            assert(out@ + putsp_bytes(self@.memory, index, remaining as nat) =~= total);
        }
        while going && remaining > 0
            invariant
                remaining <= MEMORY_WORDS,
                going ==> out@ + putsp_bytes(self@.memory, index, remaining as nat) == total,
                !going ==> out@ == total,
            decreases remaining,
        {
            let w = self.memory[index as usize];
            let lo = w & 0xFF;
            let hi = w >> 8;
            if lo == 0 {
                going = false;
            } else {
                out.push(lo as u8);
                if hi == 0 {
                    going = false;
                    proof {
                        assert(out@ =~= total);
                    }
                } else {
                    out.push(hi as u8);
                    proof {
                        assert(out@ + putsp_bytes(
                            self@.memory,
                            wadd(index, 1),
                            (remaining - 1) as nat,
                        ) =~= total);
                    }
                    index = index.wrapping_add(1);
                }
            }
            remaining = remaining - 1;
        }
        proof {
            assert(out@ =~= total);
        }
        out
    }

    /// HALT: clear the running flag; the execute loop then stops.
    fn halt(&mut self)
        ensures
            final(self)@ == (StateModel { running: false, ..old(self)@ }),
    {
        self.running = false;
        proof {
            assert(self@ =~= (StateModel { running: false, ..old(self)@ }));
        }
    }

    /// The fatal-fault snapshot for an illegal or unknown opcode.
    pub fn illegal_opcode(&self, opcode: u16) -> (f: Fault)
        ensures
            fault_matches(f, self@, FaultKind::IllegalOpcode(opcode)),
    {
        Fault {
            kind: FaultKind::IllegalOpcode(opcode),
            registers: self.registers,
            pc: self.pc,
            fzero: self.fzero,
            fneg: self.fneg,
            fpos: self.fpos,
        }
    }

    /// TRAP: dispatch on the low eight bits to one of the six console
    /// routines; any other vector is the fatal unknown-trap condition.
    pub fn trap(&mut self, instruction: u16) -> (r: Result<StepOutput, Fault>)
        ensures
            trap_post(old(self)@, final(self)@, instruction, r),
            old(self).wf() ==> final(self).wf(),
    {
        let code = instruction & 0xFF;
        match Trapcode::try_from(code) {
            Ok(Trapcode::GETC) => Ok(
                StepOutput { out: Vec::new(), request: Some(CharRequest::Silent) },
            ),
            Ok(Trapcode::OUT) => Ok(StepOutput { out: self.out(), request: None }),
            Ok(Trapcode::PUTS) => Ok(StepOutput { out: self.puts(), request: None }),
            Ok(Trapcode::IN) => Ok(
                StepOutput { out: Vec::new(), request: Some(CharRequest::Echoed) },
            ),
            Ok(Trapcode::PUTSP) => Ok(StepOutput { out: self.putsp(), request: None }),
            Ok(Trapcode::HALT) => {
                self.halt();
                Ok(StepOutput { out: Vec::new(), request: None })
            },
            Err(_) => Err(
                Fault {
                    kind: FaultKind::UnknownTrap(code),
                    registers: self.registers,
                    pc: self.pc,
                    fzero: self.fzero,
                    fneg: self.fneg,
                    fpos: self.fpos,
                },
            ),
        }
    }
}

// ---------------------------------------------------------------------------
// The fetch/decode/execute step
// ---------------------------------------------------------------------------

/// The machine after the fetch: the device side effect of reading at the PC,
/// then the PC incremented by one word. All offset-relative opcodes compute
/// against this post-increment PC.
pub open spec fn fetch_state(m: StateModel, k: Option<u8>) -> StateModel {
    let m1 = read_state(m, m.pc, k);
    StateModel { pc: wadd(m1.pc, 1), ..m1 }
}

/// The instruction word the fetch returns.
pub open spec fn fetched_instruction(m: StateModel, k: Option<u8>) -> u16 {
    read_value(m.memory, m.pc, k)
}

/// The pending keystroke after the fetch.
pub open spec fn fetch_key(m: StateModel, k: Option<u8>) -> Option<u8> {
    key_after_read(m.pc, k)
}

/// Effect and result of one whole step. A halted machine does nothing. An
/// illegal opcode (the reserved slot, RTI, or a value outside the table)
/// and an unknown trap vector fail fatally, mutating nothing beyond the
/// fetch itself.
pub open spec fn step_post(
    pre: StateModel,
    post: StateModel,
    k: Option<u8>,
    r: Result<StepOutput, Fault>,
) -> bool {
    if !pre.running {
        post == pre && ok_empty(r)
    } else {
        let s1 = fetch_state(pre, k);
        let i = fetched_instruction(pre, k);
        let k1 = fetch_key(pre, k);
        let op = opcode_bits_of(i);
        if op == 0 {
            post == br_step(s1, i) && ok_empty(r)
        } else if op == 1 {
            post == add_step(s1, i) && ok_empty(r)
        } else if op == 2 {
            post == ld_step(s1, i, k1) && ok_empty(r)
        } else if op == 3 {
            post == st_step(s1, i) && ok_empty(r)
        } else if op == 4 {
            post == jsr_step(s1, i) && ok_empty(r)
        } else if op == 5 {
            post == and_step(s1, i) && ok_empty(r)
        } else if op == 6 {
            post == ldr_step(s1, i, k1) && ok_empty(r)
        } else if op == 7 {
            post == str_step(s1, i) && ok_empty(r)
        } else if op == 8 || op == 13 {
            post == s1 && fails_with(r, s1, FaultKind::IllegalOpcode(op))
        } else if op == 9 {
            post == not_step(s1, i) && ok_empty(r)
        } else if op == 10 {
            post == ldi_step(s1, i, k1) && ok_empty(r)
        } else if op == 11 {
            post == sti_step(s1, i, k1) && ok_empty(r)
        } else if op == 12 {
            post == jmp_step(s1, i) && ok_empty(r)
        } else if op == 14 {
            post == lea_step(s1, i) && ok_empty(r)
        } else {
            trap_post(s1, post, i, r)
        }
    }
}

/// The pending keystroke after one whole step: the fetch consumes it when
/// the PC addresses the status register, and the memory-reading opcodes
/// consume it in turn.
pub open spec fn step_key(pre: StateModel, k: Option<u8>) -> Option<u8> {
    if !pre.running {
        k
    } else {
        let s1 = fetch_state(pre, k);
        let i = fetched_instruction(pre, k);
        let k1 = fetch_key(pre, k);
        let op = opcode_bits_of(i);
        if op == 2 {
            ld_key(s1, i, k1)
        } else if op == 6 {
            ldr_key(s1, i, k1)
        } else if op == 10 {
            ldi_key(s1, i, k1)
        } else if op == 11 {
            sti_key(s1, i, k1)
        } else {
            k1
        }
    }
}

impl State {
    /// One fetch/decode/execute cycle. `key` is the pending keystroke, if
    /// one is available: a poll of the status register consumes it. The
    /// result carries the bytes to write and at most one read request, or
    /// the fatal fault with its diagnostic snapshot.
    pub fn step(&mut self, key: &mut Option<u8>) -> (r: Result<StepOutput, Fault>)
        requires
            old(self).wf(),
        ensures
            final(self).wf(),
            step_post(old(self)@, final(self)@, *old(key), r),
            *final(key) == step_key(old(self)@, *old(key)),
    {
        if !self.running {
            return Ok(StepOutput { out: Vec::new(), request: None });
        }
        let instruction = self.mem_read(self.pc, key);
        self.pc = self.pc.wrapping_add(1);
        proof {
            lemma_opcode_bits_bound(instruction);
            assert(self@ =~= fetch_state(old(self)@, *old(key)));
        }
        let op = instruction >> 12;
        match Opcode::try_from(op) {
            Ok(Opcode::BR) => {
                self.conditional_branch(instruction);
                Ok(StepOutput { out: Vec::new(), request: None })
            },
            Ok(Opcode::ADD) => {
                self.add(instruction);
                Ok(StepOutput { out: Vec::new(), request: None })
            },
            Ok(Opcode::LD) => {
                self.load(instruction, key);
                Ok(StepOutput { out: Vec::new(), request: None })
            },
            Ok(Opcode::ST) => {
                self.store(instruction);
                Ok(StepOutput { out: Vec::new(), request: None })
            },
            Ok(Opcode::JSR) => {
                self.jump_to_subroutine(instruction);
                Ok(StepOutput { out: Vec::new(), request: None })
            },
            Ok(Opcode::AND) => {
                self.and(instruction);
                Ok(StepOutput { out: Vec::new(), request: None })
            },
            Ok(Opcode::LDR) => {
                self.load_base_plus_offset(instruction, key);
                Ok(StepOutput { out: Vec::new(), request: None })
            },
            Ok(Opcode::STR) => {
                self.store_base_plus_offset(instruction);
                Ok(StepOutput { out: Vec::new(), request: None })
            },
            Ok(Opcode::RTI) => Err(self.illegal_opcode(op)),
            Ok(Opcode::NOT) => {
                self.not(instruction);
                Ok(StepOutput { out: Vec::new(), request: None })
            },
            Ok(Opcode::LDI) => {
                self.load_indirect(instruction, key);
                Ok(StepOutput { out: Vec::new(), request: None })
            },
            Ok(Opcode::STI) => {
                self.store_indirect(instruction, key);
                Ok(StepOutput { out: Vec::new(), request: None })
            },
            Ok(Opcode::JMP) => {
                self.jump(instruction);
                Ok(StepOutput { out: Vec::new(), request: None })
            },
            Ok(Opcode::RES) => Err(self.illegal_opcode(op)),
            Ok(Opcode::LEA) => {
                self.load_effective_address(instruction);
                Ok(StepOutput { out: Vec::new(), request: None })
            },
            Ok(Opcode::TRAP) => self.trap(instruction),
            Err(_) => Err(self.illegal_opcode(op)),
        }
    }
}

// ---------------------------------------------------------------------------
// Laws of the engine
// ---------------------------------------------------------------------------

/// STI then LDI through the same pointer cell round-trips: a word stored
/// through a pointer and loaded back through that pointer is unchanged.
/// The pointer cell and the target it names must be plain storage (not the
/// keyboard status register), the store must not clobber the pointer cell,
/// and no keystroke is pending at either instruction.
pub proof fn lemma_sti_ldi_round_trip(m: StateModel, i1: u16, i2: u16)
    requires
        m.wf(),
        wadd(m.pc, sext_spec(off9_of(i2), 9)) == wadd(m.pc, sext_spec(off9_of(i1), 9)),
        wadd(m.pc, sext_spec(off9_of(i1), 9)) != KEYBOARD_STATUS_REGISTER,
        m.memory[wadd(m.pc, sext_spec(off9_of(i1), 9)) as int] != KEYBOARD_STATUS_REGISTER,
        m.memory[wadd(m.pc, sext_spec(off9_of(i1), 9)) as int] != wadd(
            m.pc,
            sext_spec(off9_of(i1), 9),
        ),
    ensures
        ({
            let s2 = ldi_step(sti_step(m, i1, Option::None), i2, Option::None);
            s2.registers[dr_of(i2) as int] == m.registers[dr_of(i1) as int]
        }),
{
    lemma_and_mask7(i1 >> 9);
    lemma_and_mask7(i2 >> 9);
}

/// A fatal step — the reserved opcode, RTI, or an unknown trap vector —
/// terminates without mutating the machine: registers, flags, memory, and
/// the running flag stand as before, the PC having only completed its fetch
/// increment. Stated for a fetch away from the keyboard status register, so
/// that not even the device registers move.
pub proof fn lemma_fatal_step_changes_nothing(
    pre: StateModel,
    post: StateModel,
    k: Option<u8>,
    r: Result<StepOutput, Fault>,
)
    requires
        pre.running,
        pre.pc != KEYBOARD_STATUS_REGISTER,
        step_post(pre, post, k, r),
        r is Err,
    ensures
        post.memory == pre.memory,
        post.registers == pre.registers,
        post.fzero == pre.fzero,
        post.fneg == pre.fneg,
        post.fpos == pre.fpos,
        post.running == pre.running,
        post.pc == wadd(pre.pc, 1),
{
}

} // verus!
