use riscv_vm::constants::{A0, A1, A2, A7, ECALL_EXIT, ECALL_WRITE};
use riscv_vm::cpu::{Cpu, CpuEvent};
use riscv_vm::error::CpuError;

const EBREAK: u32 = 0x0010_0073;
const ECALL: u32 = 0x0000_0073;

fn lui(rd: u32, imm20: u32) -> u32 {
    (imm20 << 12) | (rd << 7) | 0b0110111
}

fn i_type(opcode: u32, rd: u32, funct3: u32, rs1: u32, imm: i32) -> u32 {
    (((imm as u32) & 0xfff) << 20) | (rs1 << 15) | (funct3 << 12) | (rd << 7) | opcode
}

fn addi(rd: u32, rs1: u32, imm: i32) -> u32 {
    i_type(0b0010011, rd, 0, rs1, imm)
}

fn addiw(rd: u32, rs1: u32, imm: i32) -> u32 {
    i_type(0b0011011, rd, 0, rs1, imm)
}

fn lb(rd: u32, rs1: u32, imm: i32) -> u32 {
    i_type(0b0000011, rd, 0, rs1, imm)
}

fn lw(rd: u32, rs1: u32, imm: i32) -> u32 {
    i_type(0b0000011, rd, 2, rs1, imm)
}

/// A CPU with `program` at address 0 and `pc` at 0.
fn cpu_with(program: &[u32], memory_size: usize) -> Cpu {
    let mut cpu = Cpu::new(memory_size).unwrap();
    let bytes: Vec<u8> = program.iter().flat_map(|w| w.to_le_bytes()).collect();
    cpu.write_memory(0, &bytes).unwrap();
    cpu
}

fn run(cpu: &mut Cpu, steps: usize) {
    for _ in 0..steps {
        assert_eq!(cpu.tick(), Ok(None));
    }
}

#[test]
fn new_cpu_is_zeroed_and_running() {
    let cpu = Cpu::new(64).unwrap();
    assert_eq!(cpu.memory_size(), 64);
    assert_eq!(cpu.pc(), 0);
    assert!(cpu.is_running());
    assert!(!cpu.is_halted());
    assert_eq!(cpu.exit_code(), 0);
    for r in 0..32 {
        assert_eq!(cpu.register(r), 0);
    }
    assert_eq!(cpu.read_memory(0, 64).unwrap(), vec![0u8; 64]);
}

#[test]
fn addi_repeated_application_folds() {
    let mut cpu = cpu_with(&[addi(1, 0, 3), addi(1, 1, 1), addi(1, 1, 1), addi(1, 1, 1)], 64);
    run(&mut cpu, 4);
    assert_eq!(cpu.register(1), 6);
    assert_eq!(cpu.pc(), 16);
}

#[test]
fn addi_negative_immediate_wraps() {
    let mut cpu = cpu_with(&[addi(5, 0, -1), addi(6, 5, 2), addi(7, 0, -2048)], 64);
    run(&mut cpu, 3);
    assert_eq!(cpu.register(5), u64::MAX);
    assert_eq!(cpu.register(6), 1);
    assert_eq!(cpu.register(7), (-2048i64) as u64);
}

#[test]
fn addiw_truncates_and_sign_extends() {
    let mut cpu = cpu_with(&[addiw(2, 1, 1), addiw(3, 0, -5), addiw(4, 0, 7)], 64);
    cpu.set_register(1, 0x7fff_ffff);
    run(&mut cpu, 3);
    assert_eq!(cpu.register(2), 0xffff_ffff_8000_0000);
    assert_eq!(cpu.register(3), (-5i64) as u64);
    assert_eq!(cpu.register(4), 7);
}

#[test]
fn addiw_repeated_application_folds() {
    let mut cpu = cpu_with(&[addiw(1, 0, 3), addiw(1, 1, 1), addiw(1, 1, 1), addiw(1, 1, 1)], 64);
    run(&mut cpu, 4);
    assert_eq!(cpu.register(1), 6);
}

#[test]
fn lui_loads_shifted_immediate() {
    let mut cpu = cpu_with(&[lui(1, 0x1), lui(2, 0xfffff)], 64);
    run(&mut cpu, 2);
    assert_eq!(cpu.register(1), 0x1000);
    assert_eq!(cpu.register(2), 0xffff_f000);
    assert_eq!(cpu.register(2) & 0xfff, 0);
}

#[test]
fn writes_to_zero_register_are_discarded() {
    let mut cpu = cpu_with(&[lui(0, 0x1), addi(0, 0, 5), addiw(0, 0, 5), lb(0, 0, 0), lw(0, 0, 0)], 64);
    run(&mut cpu, 5);
    assert_eq!(cpu.register(0), 0);
    cpu.set_register(0, 9);
    assert_eq!(cpu.register(0), 0);
    cpu.set_register(31, 9);
    assert_eq!(cpu.register(31), 9);
}

#[test]
fn loads_zero_extend() {
    let mut cpu = cpu_with(&[lb(1, 0, 32), lw(2, 0, 32), lw(3, 4, -4)], 64);
    cpu.write_memory(32, &[0xf0, 0x02, 0x03, 0x84]).unwrap();
    cpu.set_register(4, 36);
    run(&mut cpu, 3);
    assert_eq!(cpu.register(1), 0xf0);
    assert_eq!(cpu.register(2), 0x8403_02f0);
    assert_eq!(cpu.register(3), 0x8403_02f0);
}

#[test]
fn load_out_of_bounds_fails_and_keeps_state() {
    let mut cpu = cpu_with(&[lb(1, 0, 64)], 64);
    assert_eq!(cpu.tick(), Err(CpuError::OutOfBounds));
    assert_eq!(cpu.pc(), 0);
    let mut cpu = cpu_with(&[lw(1, 0, 62)], 64);
    assert_eq!(cpu.tick(), Err(CpuError::OutOfBounds));
    assert_eq!(cpu.register(1), 0);
}

#[test]
fn write_syscall_emits_text() {
    let mut cpu = cpu_with(&[ECALL], 64);
    cpu.write_memory(40, b"Hi").unwrap();
    cpu.set_register(A7, ECALL_WRITE);
    cpu.set_register(A0, 12345);
    cpu.set_register(A1, 40);
    cpu.set_register(A2, 2);
    assert_eq!(
        cpu.tick(),
        Ok(Some(CpuEvent::Write {
            text: "Hi".to_string()
        }))
    );
    assert!(cpu.is_running());
    assert_eq!(cpu.pc(), 4);
}

#[test]
fn write_syscall_rejects_invalid_utf8() {
    let mut cpu = cpu_with(&[ECALL], 64);
    cpu.write_memory(40, &[0xff, 0xfe]).unwrap();
    cpu.set_register(A7, ECALL_WRITE);
    cpu.set_register(A1, 40);
    cpu.set_register(A2, 2);
    assert_eq!(cpu.tick(), Err(CpuError::MalformedOutput));
    assert_eq!(cpu.pc(), 0);
}

#[test]
fn write_syscall_buffer_out_of_bounds() {
    let mut cpu = cpu_with(&[ECALL], 64);
    cpu.set_register(A7, ECALL_WRITE);
    cpu.set_register(A1, 60);
    cpu.set_register(A2, 5);
    assert_eq!(cpu.tick(), Err(CpuError::OutOfBounds));
    cpu.set_register(A1, u64::MAX);
    cpu.set_register(A2, 2);
    assert_eq!(cpu.tick(), Err(CpuError::OutOfBounds));
}

#[test]
fn exit_syscall_halts() {
    let mut cpu = cpu_with(&[ECALL, addi(1, 0, 1)], 64);
    cpu.set_register(A7, ECALL_EXIT);
    cpu.set_register(A0, 42);
    assert_eq!(cpu.tick(), Ok(Some(CpuEvent::Exit { exit_code: 42 })));
    assert!(cpu.is_halted());
    assert!(!cpu.is_running());
    assert_eq!(cpu.exit_code(), 42);
    assert_eq!(cpu.pc(), 4);
    assert_eq!(cpu.tick(), Ok(None));
    assert_eq!(cpu.register(1), 0);
    assert_eq!(cpu.pc(), 4);
}

#[test]
fn exit_code_is_low_word_of_a0() {
    let mut cpu = cpu_with(&[ECALL], 64);
    cpu.set_register(A7, ECALL_EXIT);
    cpu.set_register(A0, u64::MAX);
    assert_eq!(cpu.tick(), Ok(Some(CpuEvent::Exit { exit_code: -1 })));
}

#[test]
fn unknown_syscall_fails() {
    let mut cpu = cpu_with(&[ECALL], 64);
    cpu.set_register(A7, 1);
    assert_eq!(cpu.tick(), Err(CpuError::UnimplementedSyscall));
    assert!(cpu.is_running());
}

#[test]
fn ebreak_does_nothing() {
    let mut cpu = cpu_with(&[EBREAK], 64);
    assert_eq!(cpu.tick(), Ok(None));
    assert_eq!(cpu.pc(), 4);
}

#[test]
fn illegal_system_encodings() {
    let bad_rd = ECALL | (1 << 7);
    let bad_funct3 = ECALL | (1 << 12);
    let bad_imm = 0x0020_0073;
    for w in [bad_rd, bad_funct3, bad_imm] {
        let mut cpu = cpu_with(&[w], 64);
        assert_eq!(cpu.tick(), Err(CpuError::IllegalInstruction));
    }
}

#[test]
fn unimplemented_opcodes() {
    let store = 0b0100011;
    let bad_funct3_imm = i_type(0b0010011, 1, 1, 0, 1);
    let bad_funct3_imm32 = i_type(0b0011011, 1, 1, 0, 1);
    let bad_funct3_load = i_type(0b0000011, 1, 1, 0, 0);
    for w in [store, bad_funct3_imm, bad_funct3_imm32, bad_funct3_load, 0] {
        let mut cpu = cpu_with(&[w], 64);
        assert_eq!(cpu.tick(), Err(CpuError::UnimplementedOpcode));
        assert_eq!(cpu.pc(), 0);
    }
}

#[test]
fn fetch_past_end_of_memory_fails() {
    let mut cpu = Cpu::new(16).unwrap();
    cpu.set_pc(14);
    assert_eq!(cpu.tick(), Err(CpuError::OutOfBounds));
    assert_eq!(cpu.pc(), 14);
    cpu.set_pc(12);
    assert_eq!(cpu.tick(), Err(CpuError::UnimplementedOpcode));
}

#[test]
fn memory_access_through_cpu() {
    let mut cpu = Cpu::new(8).unwrap();
    assert_eq!(cpu.write_memory(6, &[1, 2, 3]), Err(CpuError::OutOfBounds));
    assert_eq!(cpu.read_memory(0, 8).unwrap(), vec![0; 8]);
    cpu.write_memory(6, &[1, 2]).unwrap();
    assert_eq!(cpu.read_memory(5, 8).unwrap(), vec![0, 1, 2]);
    assert_eq!(cpu.read_memory(5, 9), Err(CpuError::OutOfBounds));
}
