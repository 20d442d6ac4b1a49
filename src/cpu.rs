//! The register file, the fetch-decode-execute step and the syscall bridge.

use crate::constants::{A0, A1, A2, A7, ECALL_EXIT, ECALL_WRITE};
use crate::error::CpuError;
use crate::monitored_memory::{in_bounds, le_word, overwrite, MonitoredMemory};
use crate::utils::{sign_extend_u32_to_i32, sign_extend_u64_to_i64, sign_extended};
use vstd::arithmetic::div_mod::{
    lemma_add_mod_noop, lemma_mod_mod, lemma_mod_sub_multiples_vanish, lemma_mod_twice,
};
use vstd::arithmetic::power2::lemma2_to64;
use vstd::prelude::*;
use vstd::utf8::{
    decode_utf8, encode_utf8, encode_utf8_decode_utf8, encode_utf8_valid_utf8, valid_utf8,
};

verus! {

/// Major opcodes of the modelled instructions.
pub const OP_LUI: u32 = 0b0110111;
pub const OP_IMM: u32 = 0b0010011;
pub const OP_IMM_32: u32 = 0b0011011;
pub const OP_LOAD: u32 = 0b0000011;
pub const OP_SYSTEM: u32 = 0b1110011;

/// The size of an instruction word in bytes.
pub const WORD_SIZE: u64 = 4;

/// An outcome of emulation that the host can observe.
#[derive(Clone, Debug, PartialEq, Eq)]
pub enum CpuEvent {
    /// The guest wrote `text`.
    Write { text: String },
    /// The guest asked to terminate with `exit_code`.
    Exit { exit_code: i32 },
}

/// The value of a [`CpuEvent`].
pub enum CpuEventView {
    Write { text: Seq<char> },
    Exit { exit_code: i32 },
}

impl View for CpuEvent {
    type V = CpuEventView;

    open spec fn view(&self) -> CpuEventView {
        match self {
            CpuEvent::Write { text } => CpuEventView::Write { text: text@ },
            CpuEvent::Exit { exit_code } => CpuEventView::Exit { exit_code: *exit_code },
        }
    }
}

/// The value of an optional event.
pub open spec fn event_view(e: Option<CpuEvent>) -> Option<CpuEventView> {
    match e {
        Some(ev) => Some(ev@),
        None => None,
    }
}

/// The whole machine state as mathematical values.
pub struct CpuState {
    pub regs: Seq<u64>,
    pub pc: u64,
    pub mem: Seq<u8>,
    pub running: bool,
    pub exit_code: i32,
}

impl CpuState {
    /// Thirty-two registers, of which `x0` holds zero.
    pub open spec fn wf(self) -> bool {
        self.regs.len() == 32 && self.regs[0] == 0
    }
}

/// `v` reduced modulo 2^64.
pub open spec fn wrap64(v: int) -> u64 {
    (v % 0x1_0000_0000_0000_0000) as u64
}

/// Bits 0-6.
pub open spec fn opcode(w: u32) -> u32 {
    w & 0x7f
}

/// Bits 7-11.
pub open spec fn rd(w: u32) -> u32 {
    (w >> 7u32) & 0x1f
}

/// Bits 12-14.
pub open spec fn funct3(w: u32) -> u32 {
    (w >> 12u32) & 0x7
}

/// Bits 15-19.
pub open spec fn rs1(w: u32) -> u32 {
    (w >> 15u32) & 0x1f
}

/// Bits 20-31, the I-type immediate before sign extension.
pub open spec fn imm_i(w: u32) -> u32 {
    (w >> 20u32) & 0xfff
}

/// The value that LUI loads: bits 12-31, shifted left by 12.
pub open spec fn lui_value(w: u32) -> u64 {
    ((w >> 12u32) as int * 0x1000) as u64
}

/// `x` plus the sign-extended 12-bit immediate `imm`, modulo 2^64.
pub open spec fn add_imm(x: u64, imm: u32) -> u64 {
    wrap64(x + sign_extended(imm as int, 12))
}

/// ADDIW: the sum truncated to 32 bits, then sign-extended to 64.
pub open spec fn add_imm_word(x: u64, imm: u32) -> u64 {
    wrap64(sign_extended(x + sign_extended(imm as int, 12), 32))
}

/// `s` after writing `v` to register `r`; a write to `x0` is discarded.
pub open spec fn with_reg(s: CpuState, r: u32, v: u64) -> CpuState {
    if r == 0 {
        s
    } else {
        CpuState { regs: s.regs.update(r as int, v), ..s }
    }
}

/// The result of an instruction: the next state and any event, or a fault.
pub type Outcome = Result<(CpuState, Option<CpuEventView>), CpuError>;

/// LB: zero-extended byte at `rs1 + imm`.
pub open spec fn load_byte(s: CpuState, w: u32) -> Outcome {
    let addr = add_imm(s.regs[rs1(w) as int], imm_i(w));
    if rd(w) == 0 {
        Ok((s, None))
    } else if addr >= s.mem.len() {
        Err(CpuError::OutOfBounds)
    } else {
        Ok((with_reg(s, rd(w), s.mem[addr as int] as u64), None))
    }
}

/// LW: zero-extended little-endian word at `rs1 + imm`.
pub open spec fn load_word(s: CpuState, w: u32) -> Outcome {
    let addr = add_imm(s.regs[rs1(w) as int], imm_i(w));
    if rd(w) == 0 {
        Ok((s, None))
    } else if addr + 4 > s.mem.len() {
        Err(CpuError::OutOfBounds)
    } else {
        Ok((with_reg(s, rd(w), le_word(s.mem, addr as int) as u64), None))
    }
}

/// The environment call selected by `a7`.
pub open spec fn ecall(s: CpuState) -> Outcome {
    let n = s.regs[A7 as int];
    if n == ECALL_WRITE {
        let ptr = s.regs[A1 as int] as int;
        let len = s.regs[A2 as int] as int;
        if ptr + len > s.mem.len() {
            Err(CpuError::OutOfBounds)
        } else if !valid_utf8(s.mem.subrange(ptr, ptr + len)) {
            Err(CpuError::MalformedOutput)
        } else {
            Ok((s, Some(CpuEventView::Write { text: decode_utf8(s.mem.subrange(ptr, ptr + len)) })))
        }
    } else if n == ECALL_EXIT {
        let code = s.regs[A0 as int] as i32;
        Ok((CpuState { running: false, exit_code: code, ..s }, Some(CpuEventView::Exit { exit_code: code })))
    } else {
        Err(CpuError::UnimplementedSyscall)
    }
}

/// SYSTEM: `ecall` or `ebreak`, with `rd` and funct3 both zero.
pub open spec fn system(s: CpuState, w: u32) -> Outcome {
    if rd(w) != 0 || funct3(w) != 0 {
        Err(CpuError::IllegalInstruction)
    } else if imm_i(w) == 0 {
        ecall(s)
    } else if imm_i(w) == 1 {
        Ok((s, None))
    } else {
        Err(CpuError::IllegalInstruction)
    }
}

/// The effect of executing instruction word `w` in state `s`, before the
/// program counter advances.
pub open spec fn execute(s: CpuState, w: u32) -> Outcome {
    let op = opcode(w);
    if op == OP_LUI {
        Ok((with_reg(s, rd(w), lui_value(w)), None))
    } else if op == OP_IMM {
        if funct3(w) == 0 {
            Ok((with_reg(s, rd(w), add_imm(s.regs[rs1(w) as int], imm_i(w))), None))
        } else {
            Err(CpuError::UnimplementedOpcode)
        }
    } else if op == OP_IMM_32 {
        if funct3(w) == 0 {
            Ok((with_reg(s, rd(w), add_imm_word(s.regs[rs1(w) as int], imm_i(w))), None))
        } else {
            Err(CpuError::UnimplementedOpcode)
        }
    } else if op == OP_LOAD {
        if funct3(w) == 0 {
            load_byte(s, w)
        } else if funct3(w) == 2 {
            load_word(s, w)
        } else {
            Err(CpuError::UnimplementedOpcode)
        }
    } else if op == OP_SYSTEM {
        system(s, w)
    } else {
        Err(CpuError::UnimplementedOpcode)
    }
}

/// One tick: nothing once halted; otherwise fetch the word at `pc`, execute
/// it, and advance `pc` by four.
pub open spec fn step(s: CpuState) -> Outcome {
    if !s.running {
        Ok((s, None))
    } else if s.pc + 4 > s.mem.len() {
        Err(CpuError::OutOfBounds)
    } else {
        match execute(s, le_word(s.mem, s.pc as int)) {
            Ok((t, ev)) => Ok((CpuState { pc: (t.pc + 4) as u64, ..t }, ev)),
            Err(e) => Err(e),
        }
    }
}

/// Whether a call that went from `before` to `after` and returned `r` did
/// what `expected` says: on a fault, the state is left as it was.
pub open spec fn realizes(
    before: CpuState,
    after: CpuState,
    r: Result<Option<CpuEvent>, CpuError>,
    expected: Outcome,
) -> bool {
    match expected {
        Ok((s, ev)) => r is Ok && after == s && event_view(r->Ok_0) == ev,
        Err(e) => r == Err::<Option<CpuEvent>, CpuError>(e) && after == before,
    }
}

/// The bounds of the decoded fields.
pub proof fn lemma_fields_bounded(w: u32)
    ensures
        rd(w) < 32,
        rs1(w) < 32,
        funct3(w) < 8,
        imm_i(w) < 0x1000,
        w >> 12u32 < 0x10_0000,
{
    assert(((w >> 7u32) & 0x1f) < 32 && ((w >> 15u32) & 0x1f) < 32 && ((w >> 12u32) & 0x7) < 8
        && ((w >> 20u32) & 0xfff) < 0x1000 && (w >> 12u32) < 0x10_0000) by (bit_vector);
}

/// Register `x0` reads as zero after every step, whatever the instruction.
pub proof fn lemma_step_keeps_zero_register(s: CpuState)
    requires
        s.wf(),
    ensures
        step(s) matches Ok((t, _)) ==> t.wf(),
{
    lemma_fields_bounded(le_word(s.mem, s.pc as int));
}

/// An instruction that writes a register and succeeds leaves the value it
/// computed in `rd` when `rd` is not `x0`, leaves `x0` at zero when it is,
/// and changes no other register. LUI, ADDI and ADDIW always succeed.
pub proof fn lemma_step_writes_destination(s: CpuState)
    requires
        s.wf(),
        s.running,
        s.pc + 4 <= s.mem.len(),
    ensures
        ({
            let w = le_word(s.mem, s.pc as int);
            let value: Option<u64> = if opcode(w) == OP_LUI {
                Some(lui_value(w))
            } else if opcode(w) == OP_IMM && funct3(w) == 0 {
                Some(add_imm(s.regs[rs1(w) as int], imm_i(w)))
            } else if opcode(w) == OP_IMM_32 && funct3(w) == 0 {
                Some(add_imm_word(s.regs[rs1(w) as int], imm_i(w)))
            } else if opcode(w) == OP_LOAD && funct3(w) == 0 {
                Some(s.mem[add_imm(s.regs[rs1(w) as int], imm_i(w)) as int] as u64)
            } else if opcode(w) == OP_LOAD && funct3(w) == 2 {
                Some(le_word(s.mem, add_imm(s.regs[rs1(w) as int], imm_i(w)) as int) as u64)
            } else {
                None
            };
            &&& (opcode(w) == OP_LUI || (opcode(w) == OP_IMM && funct3(w) == 0) || (opcode(w)
                == OP_IMM_32 && funct3(w) == 0)) ==> step(s) is Ok
            &&& value matches Some(v) ==> step(s) matches Ok((t, _)) ==> {
                &&& t.regs[0] == 0
                &&& rd(w) != 0 ==> t.regs[rd(w) as int] == v
                &&& forall|i: int| 0 <= i < 32 && i != rd(w) ==> t.regs[i] == s.regs[i]
            }
        }),
{
    lemma_fields_bounded(le_word(s.mem, s.pc as int));
}

/// Two ADDIs in a row add both sign-extended immediates, modulo 2^64.
pub proof fn lemma_add_imm_folds(x: u64, a: u32, b: u32)
    ensures
        add_imm(add_imm(x, a), b) == wrap64(x + sign_extended(a as int, 12) + sign_extended(
            b as int,
            12,
        )),
{
    let m: int = 0x1_0000_0000_0000_0000;
    let y = x + sign_extended(a as int, 12);
    lemma_add_mod_noop(y, sign_extended(b as int, 12), m);
    lemma_mod_twice(y, m);
    lemma_add_mod_noop(y % m, sign_extended(b as int, 12), m);
}

/// Two ADDIWs in a row give the sign extension of the low 32 bits of the
/// source plus both sign-extended immediates.
pub proof fn lemma_add_imm_word_folds(x: u64, a: u32, b: u32)
    ensures
        add_imm_word(add_imm_word(x, a), b) == wrap64(
            sign_extended(x + sign_extended(a as int, 12) + sign_extended(b as int, 12), 32),
        ),
{
    let m32: int = 0x1_0000_0000;
    let m64: int = 0x1_0000_0000_0000_0000;
    let ea = sign_extended(a as int, 12);
    let eb = sign_extended(b as int, 12);
    let first = sign_extended(x + ea, 32);
    lemma2_to64();
    // the first result, as a register, agrees with `x + ea` modulo 2^32
    lemma_mod_mod(first, m32, m32);
    assert(wrap64(first) as int % m32 == first % m32);
    assert(first % m32 == (x + ea) % m32) by {
        lemma_mod_twice(x + ea, m32);
        lemma_mod_sub_multiples_vanish((x + ea) % m32, m32);
    }
    lemma_add_mod_noop(wrap64(first) as int, eb, m32);
    lemma_add_mod_noop(x + ea, eb, m32);
}

/// LUI loads bits 12-31 of the word shifted left by 12: the low 12 bits of
/// the result are zero.
pub proof fn lemma_lui_low_bits_zero(w: u32)
    ensures
        lui_value(w) == (w >> 12u32) as int * 0x1000,
        lui_value(w) % 0x1000 == 0,
        lui_value(w) < 0x1_0000_0000,
{
    lemma_fields_bounded(w);
}

/// A `write` syscall whose buffer holds the bytes of "Hi" returns exactly
/// one event with the text "Hi", whatever `a0` holds, and changes nothing
/// but `pc`: in particular the CPU keeps running.
pub proof fn lemma_write_syscall_emits_text(s: CpuState)
    requires
        s.wf(),
        s.running,
        s.pc + 4 <= s.mem.len(),
        le_word(s.mem, s.pc as int) == 0x73,
        s.regs[A7 as int] == ECALL_WRITE,
        s.regs[A2 as int] == 2,
        s.regs[A1 as int] + 2 <= s.mem.len(),
        s.mem[s.regs[A1 as int] as int] == 0x48,
        s.mem[s.regs[A1 as int] + 1] == 0x69,
    ensures
        step(s) == Ok::<(CpuState, Option<CpuEventView>), CpuError>(
            (
                CpuState { pc: (s.pc + 4) as u64, ..s },
                Some(CpuEventView::Write { text: seq!['H', 'i'] }),
            ),
        ),
{
    assert((0x73u32 & 0x7f) == 0b1110011u32 && ((0x73u32 >> 7u32) & 0x1f) == 0u32 && ((0x73u32
        >> 12u32) & 0x7) == 0u32 && ((0x73u32 >> 20u32) & 0xfff) == 0u32) by (bit_vector);
    let p = s.regs[A1 as int] as int;
    let chars = seq!['H', 'i'];
    assert((72u32 & 0x7f) == 72u32 && (105u32 & 0x7f) == 105u32) by (bit_vector);
    reveal_with_fuel(encode_utf8, 3);
    assert(chars.drop_first() =~= seq!['i']);
    assert(seq!['i'].drop_first() =~= Seq::<char>::empty());
    assert(encode_utf8(chars) =~= s.mem.subrange(p, p + 2));
    encode_utf8_valid_utf8(chars);
    encode_utf8_decode_utf8(chars);
}

/// Once the guest has exited, a step changes nothing and emits nothing.
pub proof fn lemma_halted_step_is_idle(s: CpuState)
    requires
        !s.running,
    ensures
        step(s) == Ok::<(CpuState, Option<CpuEventView>), CpuError>((s, None)),
{
}

/// Relies on String::from_utf8: the text that `bytes` encode, where they are valid UTF-8.
#[verifier::external_body]
fn utf8_text(bytes: Vec<u8>) -> (r: Option<String>)
    ensures
        r is Some <==> valid_utf8(bytes@),
        r is Some ==> r->0@ == decode_utf8(bytes@),
{
    String::from_utf8(bytes).ok()
}

/// A RISC-V hart with its own guest memory.
pub struct Cpu {
    gprs: [u64; 32],
    pc: u64,
    memory: MonitoredMemory,
    is_running: bool,
    exit_code: i32,
}

impl View for Cpu {
    type V = CpuState;

    closed spec fn view(&self) -> CpuState {
        CpuState {
            regs: self.gprs@,
            pc: self.pc,
            mem: self.memory@,
            running: self.is_running,
            exit_code: self.exit_code,
        }
    }
}

impl Cpu {
    /// The register file is well formed: see [`CpuState::wf`].
    pub open spec fn wf(&self) -> bool {
        self@.wf()
    }

    /// A CPU with all registers and `pc` zero, running, over `memory_size`
    /// bytes of zeroed guest memory.
    pub fn new(memory_size: usize) -> (r: Result<Cpu, CpuError>)
        ensures
            r is Ok ==> {
                let s = r->Ok_0@;
                &&& r->Ok_0.wf()
                &&& s.regs == Seq::new(32, |i: int| 0u64)
                &&& s.pc == 0
                &&& s.mem == Seq::new(memory_size as nat, |i: int| 0u8)
                &&& s.running
                &&& s.exit_code == 0
            },
            r is Err ==> r->Err_0 == CpuError::AllocationFailed,
    {
        match MonitoredMemory::new(memory_size) {
            Ok(memory) => {
                let cpu = Cpu { gprs: [0u64; 32], pc: 0, memory, is_running: true, exit_code: 0 };
                assert(cpu@.regs =~= Seq::new(32, |i: int| 0u64));
                Ok(cpu)
            },
            Err(e) => Err(e),
        }
    }

    /// Writes `v` to register `r`, discarding writes to `x0`.
    fn write_reg(&mut self, r: usize, v: u64)
        requires
            old(self).wf(),
            r < 32,
        ensures
            final(self).wf(),
            final(self)@ == with_reg(old(self)@, r as u32, v),
    {
        if r != 0 {
            self.gprs[r] = v;
        }
    }

    /// The size of guest memory in bytes.
    pub fn memory_size(&self) -> (r: usize)
        ensures
            r == self@.mem.len(),
    {
        self.memory.size()
    }

    /// The value of register `index`; `x0` always reads as zero.
    pub fn register(&self, index: usize) -> (r: u64)
        requires
            self.wf(),
            index < 32,
        ensures
            r == self@.regs[index as int],
    {
        self.gprs[index]
    }

    /// Writes `value` to register `index`; a write to `x0` is discarded.
    pub fn set_register(&mut self, index: usize, value: u64)
        requires
            old(self).wf(),
            index < 32,
        ensures
            final(self).wf(),
            final(self)@ == with_reg(old(self)@, index as u32, value),
    {
        self.write_reg(index, value);
    }

    /// The program counter.
    pub fn pc(&self) -> (r: u64)
        ensures
            r == self@.pc,
    {
        self.pc
    }

    /// Whether the guest has not yet exited.
    pub fn is_running(&self) -> (r: bool)
        ensures
            r == self@.running,
    {
        self.is_running
    }

    /// Whether the guest has exited.
    pub fn is_halted(&self) -> (r: bool)
        ensures
            r == !self@.running,
    {
        !self.is_running
    }

    /// The code that the guest exited with; zero while it runs.
    pub fn exit_code(&self) -> (r: i32)
        ensures
            r == self@.exit_code,
    {
        self.exit_code
    }

    /// A copy of guest memory in `[start, end)`.
    pub fn read_memory(&self, start: u64, end: u64) -> (r: Result<Vec<u8>, CpuError>)
        ensures
            in_bounds(start as int, end as int, self@.mem.len() as int) ==> r is Ok && r->Ok_0@
                == self@.mem.subrange(start as int, end as int),
            !in_bounds(start as int, end as int, self@.mem.len() as int) ==> r is Err && r->Err_0
                == CpuError::OutOfBounds,
    {
        self.memory.read_range(start, end)
    }

    /// Sets the program counter.
    pub fn set_pc(&mut self, pc: u64)
        requires
            old(self).wf(),
        ensures
            final(self).wf(),
            final(self)@ == (CpuState { pc, ..old(self)@ }),
    {
        self.pc = pc;
    }

    /// Writes `data` to guest memory at `addr`; nothing is written unless it
    /// all fits.
    pub fn write_memory(&mut self, addr: u64, data: &[u8]) -> (r: Result<(), CpuError>)
        requires
            old(self).wf(),
        ensures
            final(self).wf(),
            in_bounds(addr as int, addr + data@.len(), old(self)@.mem.len() as int) ==> r is Ok
                && final(self)@ == (CpuState {
                mem: overwrite(old(self)@.mem, addr as int, data@),
                ..old(self)@
            }),
            !in_bounds(addr as int, addr + data@.len(), old(self)@.mem.len() as int) ==> r
                == Err::<(), CpuError>(CpuError::OutOfBounds) && final(self)@ == old(self)@,
    {
        self.memory.write_range(addr, data)
    }

    /// LUI.
    fn handle_load_upper_immediate(&mut self, w: u32) -> (r: Result<Option<CpuEvent>, CpuError>)
        requires
            old(self).wf(),
            opcode(w) == OP_LUI,
        ensures
            final(self).wf(),
            realizes(old(self)@, final(self)@, r, execute(old(self)@, w)),
    {
        proof {
            lemma_fields_bounded(w);
        }
        let rd = ((w >> 7u32) & 0x1f) as usize;
        let value = (w >> 12u32) as u64 * 0x1000;
        self.write_reg(rd, value);
        Ok(None)
    }

    /// OP-IMM: only ADDI is modelled.
    fn handle_i_type_instruction(&mut self, w: u32) -> (r: Result<Option<CpuEvent>, CpuError>)
        requires
            old(self).wf(),
            opcode(w) == OP_IMM,
        ensures
            final(self).wf(),
            realizes(old(self)@, final(self)@, r, execute(old(self)@, w)),
    {
        if (w >> 12u32) & 0x7 == 0 {
            self.handle_addi(w);
            Ok(None)
        } else {
            Err(CpuError::UnimplementedOpcode)
        }
    }

    /// ADDI.
    fn handle_addi(&mut self, w: u32)
        requires
            old(self).wf(),
        ensures
            final(self).wf(),
            final(self)@ == with_reg(old(self)@, rd(w), add_imm(old(self)@.regs[rs1(w) as int], imm_i(w))),
    {
        proof {
            lemma_fields_bounded(w);
        }
        let rd = ((w >> 7u32) & 0x1f) as usize;
        let rs1 = ((w >> 15u32) & 0x1f) as usize;
        let imm = (w >> 20u32) & 0xfff;
        let value = add_signed_imm(self.gprs[rs1], imm);
        self.write_reg(rd, value);
    }

    /// OP-IMM-32: only ADDIW is modelled.
    fn handle_op32_type_instruction(&mut self, w: u32) -> (r: Result<Option<CpuEvent>, CpuError>)
        requires
            old(self).wf(),
            opcode(w) == OP_IMM_32,
        ensures
            final(self).wf(),
            realizes(old(self)@, final(self)@, r, execute(old(self)@, w)),
    {
        if (w >> 12u32) & 0x7 == 0 {
            self.handle_addiw(w);
            Ok(None)
        } else {
            Err(CpuError::UnimplementedOpcode)
        }
    }

    /// ADDIW.
    fn handle_addiw(&mut self, w: u32)
        requires
            old(self).wf(),
        ensures
            final(self).wf(),
            final(self)@ == with_reg(old(self)@, rd(w), add_imm_word(old(self)@.regs[rs1(w) as int], imm_i(w))),
    {
        proof {
            lemma_fields_bounded(w);
        }
        let rd = ((w >> 7u32) & 0x1f) as usize;
        let rs1 = ((w >> 15u32) & 0x1f) as usize;
        let imm = (w >> 20u32) & 0xfff;
        let value = add_signed_imm_word(self.gprs[rs1], imm);
        self.write_reg(rd, value);
    }

    /// LOAD: LB and LW are modelled.
    fn handle_other_i_type_instruction(&mut self, w: u32) -> (r: Result<Option<CpuEvent>, CpuError>)
        requires
            old(self).wf(),
            opcode(w) == OP_LOAD,
        ensures
            final(self).wf(),
            realizes(old(self)@, final(self)@, r, execute(old(self)@, w)),
    {
        let funct3 = (w >> 12u32) & 0x7;
        if funct3 == 0 {
            self.handle_load_byte(w)
        } else if funct3 == 2 {
            self.handle_load_word(w)
        } else {
            Err(CpuError::UnimplementedOpcode)
        }
    }

    /// LB, zero-extending the byte.
    fn handle_load_byte(&mut self, w: u32) -> (r: Result<Option<CpuEvent>, CpuError>)
        requires
            old(self).wf(),
        ensures
            final(self).wf(),
            realizes(old(self)@, final(self)@, r, load_byte(old(self)@, w)),
    {
        proof {
            lemma_fields_bounded(w);
        }
        let rd = ((w >> 7u32) & 0x1f) as usize;
        if rd == 0 {
            return Ok(None);
        }
        let rs1 = ((w >> 15u32) & 0x1f) as usize;
        let imm = (w >> 20u32) & 0xfff;
        let addr = add_signed_imm(self.gprs[rs1], imm);
        match self.memory.read_byte(addr) {
            Ok(byte) => {
                self.write_reg(rd, byte as u64);
                Ok(None)
            },
            Err(e) => Err(e),
        }
    }

    /// LW, zero-extending the little-endian word.
    fn handle_load_word(&mut self, w: u32) -> (r: Result<Option<CpuEvent>, CpuError>)
        requires
            old(self).wf(),
        ensures
            final(self).wf(),
            realizes(old(self)@, final(self)@, r, load_word(old(self)@, w)),
    {
        proof {
            lemma_fields_bounded(w);
        }
        let rd = ((w >> 7u32) & 0x1f) as usize;
        if rd == 0 {
            return Ok(None);
        }
        let rs1 = ((w >> 15u32) & 0x1f) as usize;
        let imm = (w >> 20u32) & 0xfff;
        let addr = add_signed_imm(self.gprs[rs1], imm);
        match self.memory.read_word(addr) {
            Ok(word) => {
                self.write_reg(rd, word as u64);
                Ok(None)
            },
            Err(e) => Err(e),
        }
    }

    /// SYSTEM: `ecall` and `ebreak`.
    fn handle_system_instruction(&mut self, w: u32) -> (r: Result<Option<CpuEvent>, CpuError>)
        requires
            old(self).wf(),
            opcode(w) == OP_SYSTEM,
        ensures
            final(self).wf(),
            realizes(old(self)@, final(self)@, r, execute(old(self)@, w)),
    {
        let rd = (w >> 7u32) & 0x1f;
        let funct3 = (w >> 12u32) & 0x7;
        if rd != 0 || funct3 != 0 {
            return Err(CpuError::IllegalInstruction);
        }
        let imm = (w >> 20u32) & 0xfff;
        if imm == 0 {
            self.handle_ecall()
        } else if imm == 1 {
            self.handle_ebreak();
            Ok(None)
        } else {
            Err(CpuError::IllegalInstruction)
        }
    }

    /// `ecall`: dispatches on the syscall number in `a7`.
    fn handle_ecall(&mut self) -> (r: Result<Option<CpuEvent>, CpuError>)
        requires
            old(self).wf(),
        ensures
            final(self).wf(),
            realizes(old(self)@, final(self)@, r, ecall(old(self)@)),
    {
        let n = self.gprs[A7];
        if n == ECALL_WRITE {
            self.handle_ecall_write()
        } else if n == ECALL_EXIT {
            Ok(Some(self.handle_ecall_exit()))
        } else {
            Err(CpuError::UnimplementedSyscall)
        }
    }

    /// `write(fd = a0, buf = a1, len = a2)`: the descriptor is not looked at;
    /// all output becomes one [`CpuEvent::Write`].
    fn handle_ecall_write(&mut self) -> (r: Result<Option<CpuEvent>, CpuError>)
        requires
            old(self).wf(),
            old(self)@.regs[A7 as int] == ECALL_WRITE,
        ensures
            final(self).wf(),
            realizes(old(self)@, final(self)@, r, ecall(old(self)@)),
    {
        let ptr = self.gprs[A1];
        let len = self.gprs[A2];
        let size = self.memory.size() as u64;
        if ptr > size || len > size - ptr {
            return Err(CpuError::OutOfBounds);
        }
        match self.memory.read_range(ptr, ptr + len) {
            Ok(bytes) => match utf8_text(bytes) {
                Some(text) => Ok(Some(CpuEvent::Write { text })),
                None => Err(CpuError::MalformedOutput),
            },
            Err(e) => Err(e),
        }
    }

    /// `exit(code = a0)`: stops the CPU and records the low 32 bits of `a0`.
    fn handle_ecall_exit(&mut self) -> (r: CpuEvent)
        requires
            old(self).wf(),
        ensures
            final(self).wf(),
            final(self)@ == (CpuState {
                running: false,
                exit_code: old(self)@.regs[A0 as int] as i32,
                ..old(self)@
            }),
            r@ == (CpuEventView::Exit { exit_code: old(self)@.regs[A0 as int] as i32 }),
    {
        let exit_code = self.gprs[A0] as i32;
        self.is_running = false;
        self.exit_code = exit_code;
        CpuEvent::Exit { exit_code }
    }

    /// `ebreak`: accepted, and does nothing; there is no debug mode.
    fn handle_ebreak(&self) {
    }

    /// Executes one instruction, unless the CPU has halted, in which case
    /// nothing changes. On a fault the state is left as it was.
    pub fn tick(&mut self) -> (r: Result<Option<CpuEvent>, CpuError>)
        requires
            old(self).wf(),
        ensures
            final(self).wf(),
            realizes(old(self)@, final(self)@, r, step(old(self)@)),
    {
        if !self.is_running {
            return Ok(None);
        }
        let pc = self.pc;
        let w = match self.memory.read_word(pc) {
            Ok(w) => w,
            Err(e) => return Err(e),
        };
        let opcode = w & 0x7f;
        let result = if opcode == OP_LUI {
            self.handle_load_upper_immediate(w)
        } else if opcode == OP_IMM {
            self.handle_i_type_instruction(w)
        } else if opcode == OP_SYSTEM {
            self.handle_system_instruction(w)
        } else if opcode == OP_IMM_32 {
            self.handle_op32_type_instruction(w)
        } else if opcode == OP_LOAD {
            self.handle_other_i_type_instruction(w)
        } else {
            Err(CpuError::UnimplementedOpcode)
        };
        if result.is_ok() {
            self.pc = pc + WORD_SIZE;
        }
        result
    }
}

/// ADDI's arithmetic.
fn add_signed_imm(x: u64, imm: u32) -> (r: u64)
    requires
        imm < 0x1000,
    ensures
        r == add_imm(x, imm),
{
    let offset = sign_extend_u64_to_i64(imm as u64, 12);
    x.wrapping_add_signed(offset)
}

/// ADDIW's arithmetic.
fn add_signed_imm_word(x: u64, imm: u32) -> (r: u64)
    requires
        imm < 0x1000,
    ensures
        r == add_imm_word(x, imm),
{
    let sum = add_signed_imm(x, imm);
    let low = (sum % 0x1_0000_0000) as u32;
    let word = sign_extend_u32_to_i32(low, 32);
    proof {
        let v = x + sign_extended(imm as int, 12);
        lemma2_to64();
        lemma_mod_mod(v, 0x1_0000_0000, 0x1_0000_0000);
        assert(low as int == v % 0x1_0000_0000);
        assert(word as int == sign_extended(v, 32));
    }
    0u64.wrapping_add_signed(word as i64)
}

} // verus!
