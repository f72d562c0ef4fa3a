use emu_core::alu::{adc, and, cp, decr, incr, or, sbc, xor};
use emu_core::cpu::Cpu;
use emu_core::jumps::{call, jp, jp_conditional, jr, jr_conditional, ret, reti, rst};
use emu_core::ld::{
    ld_cst16_to_reg, ld_cst_to_mem, ld_cst_to_reg, ld_mem_to_reg, ld_reg_to_mem, ld_reg_to_reg,
};
use emu_core::memory::{Bus, MemoryBus};
use emu_core::registers::{CpuFlag, Registers};
use emu_core::shifts::{bit, res, rl, rla, rlc, rlca, rr, rra, rrc, rrca, sla, sra, srl, swap};
use emu_core::stack::{pop, push};

#[derive(Debug, Clone, Copy, PartialEq, Eq)]
enum Cycle {
    Read(u16, u8),
    Write(u16, u8),
    Internal,
}

const IDLE: Cycle = Cycle::Internal;

fn rd(addr: u16, val: u8) -> Cycle {
    Cycle::Read(addr, val)
}

fn wr(addr: u16, val: u8) -> Cycle {
    Cycle::Write(addr, val)
}

/// Flat 64 KiB of memory that records every machine cycle.
struct Ram {
    mem: Vec<u8>,
    cycles: Vec<Cycle>,
}

impl MemoryBus for Ram {
    fn read_byte(&mut self, addr: u16) -> u8 {
        let val = self.mem[addr as usize];
        self.cycles.push(rd(addr, val));
        val
    }

    fn write_byte(&mut self, addr: u16, val: u8) {
        self.mem[addr as usize] = val;
        self.cycles.push(wr(addr, val));
    }

    fn tick(&mut self, _num_cycles: u8) {}

    fn tick_internal(&mut self) {
        self.cycles.push(IDLE);
    }

    fn pending_interrupts(&self) -> u8 {
        0
    }

    fn acknowledge_interrupt(&mut self, _line: u8) {}
}

const ORG: u16 = 0xC000;

fn blank() -> Registers {
    Registers { a: 0, b: 0, c: 0, d: 0, e: 0, h: 0, l: 0, f: 0, sp: 0xDFF0, pc: 0 }
}

/// A processor about to run `program`, which lies at `ORG`, with registers
/// `reg` and further memory contents `data`.
fn machine(reg: Registers, program: &[u8], data: &[(u16, u8)]) -> Cpu<Ram> {
    let mut mem = vec![0u8; 0x1_0000];
    for (i, &byte) in program.iter().enumerate() {
        mem[ORG as usize + i] = byte;
    }
    for &(addr, val) in data {
        mem[addr as usize] = val;
    }
    Cpu {
        reg: Registers { pc: ORG + 1, ..reg },
        halted: false,
        stopped: false,
        ime: false,
        ime_scheduled: false,
        prefetched: program[0],
        mmu: Bus::new(Ram { mem, cycles: Vec::new() }),
    }
}

/// Runs one instruction and returns the processor with its cycle count.
fn run(reg: Registers, program: &[u8], data: &[(u16, u8)]) -> (Cpu<Ram>, u8) {
    let mut cpu = machine(reg, program, data);
    let cycles = cpu.step().unwrap();
    (cpu, cycles)
}

fn next_pc(cpu: &Cpu<Ram>) -> u16 {
    cpu.doctor_log_state().pc
}

#[test]
fn add_sets_half_carry_and_carry() {
    let (cpu, n) = run(Registers { a: 0x3A, b: 0xC6, ..blank() }, &[0x80], &[]);
    assert_eq!((cpu.reg.a, cpu.reg.f, n), (0x00, 0xB0, 1));
    let (cpu, n) = run(Registers { a: 0x3C, ..blank() }, &[0xC6, 0xFF], &[]);
    assert_eq!((cpu.reg.a, cpu.reg.f, n), (0x3B, 0x30, 2));
    assert_eq!(cpu.mmu.device().cycles, vec![rd(0xC001, 0xFF), rd(0xC002, 0x00)]);
    let (cpu, n) = run(Registers { a: 0x3C, h: 0xD0, l: 0x10, ..blank() }, &[0x86], &[(0xD010, 0x12)]);
    assert_eq!((cpu.reg.a, cpu.reg.f, n), (0x4E, 0x00, 2));
    assert_eq!(cpu.mmu.device().cycles, vec![rd(0xD010, 0x12), rd(0xC001, 0x00)]);
}

#[test]
fn adc_adds_the_carry() {
    let (cpu, _) = run(Registers { a: 0x0F, f: 0x10, ..blank() }, &[0x88], &[]);
    assert_eq!((cpu.reg.a, cpu.reg.f), (0x10, 0x20));
    let (cpu, _) = run(Registers { a: 0xFF, f: 0x10, ..blank() }, &[0xCE, 0x00], &[]);
    assert_eq!((cpu.reg.a, cpu.reg.f), (0x00, 0xB0));
    let (cpu, _) = run(Registers { a: 0xE1, e: 0x0F, f: 0x10, ..blank() }, &[0x8B], &[]);
    assert_eq!((cpu.reg.a, cpu.reg.f), (0xF1, 0x20));
    let (cpu, _) = run(Registers { a: 0xE1, e: 0x0F, f: 0x00, ..blank() }, &[0x8B], &[]);
    assert_eq!((cpu.reg.a, cpu.reg.f), (0xF0, 0x20));
}

#[test]
fn sub_and_cp_set_borrows() {
    let (cpu, _) = run(Registers { a: 0x10, c: 0x01, ..blank() }, &[0x91], &[]);
    assert_eq!((cpu.reg.a, cpu.reg.f), (0x0F, 0x60));
    let (cpu, _) = run(Registers { a: 0x3E, ..blank() }, &[0xD6, 0x40], &[]);
    assert_eq!((cpu.reg.a, cpu.reg.f), (0xFE, 0x50));
    let (cpu, _) = run(Registers { a: 0x3E, ..blank() }, &[0x97], &[]);
    assert_eq!((cpu.reg.a, cpu.reg.f), (0x00, 0xC0));
    // CP leaves A alone.
    let (cpu, n) = run(Registers { a: 0x3C, ..blank() }, &[0xFE, 0x40], &[]);
    assert_eq!((cpu.reg.a, cpu.reg.f, n), (0x3C, 0x50, 2));
    let (cpu, _) = run(Registers { a: 0x3C, b: 0x2F, ..blank() }, &[0xB8], &[]);
    assert_eq!((cpu.reg.a, cpu.reg.f), (0x3C, 0x60));
    let (cpu, _) = run(Registers { a: 0x3C, b: 0x3C, ..blank() }, &[0xB8], &[]);
    assert_eq!((cpu.reg.a, cpu.reg.f), (0x3C, 0xC0));
}

#[test]
fn sbc_subtracts_the_carry() {
    let (cpu, _) = run(Registers { a: 0x00, f: 0x10, ..blank() }, &[0x98], &[]);
    assert_eq!((cpu.reg.a, cpu.reg.f), (0xFF, 0x70));
    let (cpu, _) = run(Registers { a: 0x10, f: 0x10, ..blank() }, &[0xDE, 0x0F], &[]);
    assert_eq!((cpu.reg.a, cpu.reg.f), (0x00, 0xE0));
    let (cpu, _) = run(Registers { a: 0x3B, h: 0x2A, f: 0x10, ..blank() }, &[0x9C], &[]);
    assert_eq!((cpu.reg.a, cpu.reg.f), (0x10, 0x40));
}

#[test]
fn logic_operations() {
    let (cpu, _) = run(Registers { a: 0x5A, l: 0x3F, ..blank() }, &[0xA5], &[]);
    assert_eq!((cpu.reg.a, cpu.reg.f), (0x1A, 0x20));
    let (cpu, _) = run(Registers { a: 0x5A, f: 0xF0, ..blank() }, &[0xE6, 0x00], &[]);
    assert_eq!((cpu.reg.a, cpu.reg.f), (0x00, 0xA0));
    let (cpu, _) = run(Registers { a: 0x5A, f: 0xF0, ..blank() }, &[0xF6, 0x0F], &[]);
    assert_eq!((cpu.reg.a, cpu.reg.f), (0x5F, 0x00));
    let (cpu, _) = run(Registers { a: 0x00, f: 0x70, ..blank() }, &[0xB7], &[]);
    assert_eq!((cpu.reg.a, cpu.reg.f), (0x00, 0x80));
    let (cpu, _) = run(Registers { a: 0xFF, f: 0xF0, ..blank() }, &[0xEE, 0x0F], &[]);
    assert_eq!((cpu.reg.a, cpu.reg.f), (0xF0, 0x00));
}

#[test]
fn xor_a_a_clears_a() {
    for (a, f) in [(0x00u8, 0x00u8), (0x5A, 0xF0), (0xFF, 0x10)] {
        let (cpu, n) = run(Registers { a, f, ..blank() }, &[0xAF], &[]);
        assert_eq!((cpu.reg.a, cpu.reg.f, n), (0x00, 0x80, 1));
    }
}

#[test]
fn zero_flag_follows_a_after_arithmetic() {
    let opcodes = [0x80u8, 0x88, 0x90, 0x98, 0xA0, 0xA8, 0xB0, 0x87, 0x97, 0xAF, 0x3C, 0x3D];
    for opcode in opcodes {
        for (a, b, f) in [(0u8, 0u8, 0u8), (1, 0xFF, 0), (0xFF, 0, 0x10), (0x80, 0x80, 0x10), (1, 1, 0)] {
            let (cpu, _) = run(Registers { a, b, f, ..blank() }, &[opcode], &[]);
            assert_eq!(cpu.reg.get_flag(CpuFlag::Z), cpu.reg.a == 0, "opcode {:02X}", opcode);
        }
    }
}

#[test]
fn inc_and_dec_keep_carry() {
    let (cpu, n) = run(Registers { a: 0xFF, f: 0x10, ..blank() }, &[0x3C], &[]);
    assert_eq!((cpu.reg.a, cpu.reg.f, n), (0x00, 0xB0, 1));
    let (cpu, _) = run(Registers { l: 0x00, f: 0x10, ..blank() }, &[0x2D], &[]);
    assert_eq!((cpu.reg.l, cpu.reg.f), (0xFF, 0x70));
    let (cpu, _) = run(Registers { d: 0x01, ..blank() }, &[0x15], &[]);
    assert_eq!((cpu.reg.d, cpu.reg.f), (0x00, 0xC0));
    let (cpu, _) = run(Registers { e: 0x10, ..blank() }, &[0x1D], &[]);
    assert_eq!((cpu.reg.e, cpu.reg.f), (0x0F, 0x60));
    // Each 8-bit register is reached by its own opcode.
    for (opcode, pick) in [
        (0x04u8, 0usize),
        (0x0C, 1),
        (0x14, 2),
        (0x1C, 3),
        (0x24, 4),
        (0x2C, 5),
        (0x3C, 6),
    ] {
        let (cpu, _) = run(blank(), &[opcode], &[]);
        let regs = [cpu.reg.b, cpu.reg.c, cpu.reg.d, cpu.reg.e, cpu.reg.h, cpu.reg.l, cpu.reg.a];
        for (i, r) in regs.iter().enumerate() {
            assert_eq!(*r, if i == pick { 1 } else { 0 });
        }
    }
}

#[test]
fn inc_and_dec_at_hl() {
    let reg = Registers { h: 0xD0, l: 0x00, f: 0x10, ..blank() };
    let (cpu, n) = run(reg, &[0x34], &[(0xD000, 0x0F)]);
    assert_eq!((cpu.mmu.device().mem[0xD000], cpu.reg.f, n), (0x10, 0x30, 3));
    assert_eq!(
        cpu.mmu.device().cycles,
        vec![rd(0xD000, 0x0F), wr(0xD000, 0x10), rd(0xC001, 0x00)]
    );
    let (cpu, n) = run(reg, &[0x35], &[(0xD000, 0x00)]);
    assert_eq!((cpu.mmu.device().mem[0xD000], cpu.reg.f, n), (0xFF, 0x70, 3));
}

#[test]
fn sixteen_bit_inc_and_dec_touch_no_flag() {
    let reg = Registers { b: 0xFF, c: 0xFF, f: 0xF0, ..blank() };
    let (cpu, n) = run(reg, &[0x03], &[]);
    assert_eq!((cpu.reg.bc(), cpu.reg.f, n), (0x0000, 0xF0, 2));
    assert_eq!(cpu.mmu.device().cycles, vec![IDLE, rd(0xC001, 0x00)]);
    let (cpu, _) = run(Registers { sp: 0x0000, ..blank() }, &[0x3B], &[]);
    assert_eq!((cpu.reg.sp, cpu.reg.f), (0xFFFF, 0x00));
    let (cpu, _) = run(Registers { d: 0x12, e: 0xFF, ..blank() }, &[0x13], &[]);
    assert_eq!(cpu.reg.de(), 0x1300);
    let (cpu, _) = run(Registers { h: 0x12, l: 0x00, ..blank() }, &[0x2B], &[]);
    assert_eq!(cpu.reg.hl(), 0x11FF);
}

#[test]
fn add_hl_keeps_zero() {
    let reg = Registers { h: 0x8A, l: 0x23, b: 0x06, c: 0x05, ..blank() };
    let (cpu, n) = run(Registers { f: 0x80, ..reg }, &[0x09], &[]);
    assert_eq!((cpu.reg.hl(), cpu.reg.f, n), (0x9028, 0xA0, 2));
    let (cpu, _) = run(Registers { f: 0x40, ..reg }, &[0x29], &[]);
    assert_eq!((cpu.reg.hl(), cpu.reg.f), (0x1446, 0x30));
    // A zero result does not set Z.
    let (cpu, _) = run(Registers { h: 0xFF, l: 0xFF, sp: 0x0001, ..blank() }, &[0x39], &[]);
    assert_eq!((cpu.reg.hl(), cpu.reg.f), (0x0000, 0x30));
    let (cpu, _) = run(Registers { d: 0x00, e: 0x01, f: 0xF0, ..blank() }, &[0x19], &[]);
    assert_eq!((cpu.reg.hl(), cpu.reg.f), (0x0001, 0x80));
}

#[test]
fn short_rotates_clear_zero() {
    let (cpu, n) = run(Registers { a: 0x85, f: 0xE0, ..blank() }, &[0x07], &[]);
    assert_eq!((cpu.reg.a, cpu.reg.f, n), (0x0B, 0x10, 1));
    let (cpu, _) = run(Registers { a: 0x95, f: 0x10, ..blank() }, &[0x17], &[]);
    assert_eq!((cpu.reg.a, cpu.reg.f), (0x2B, 0x10));
    let (cpu, _) = run(Registers { a: 0x3B, ..blank() }, &[0x0F], &[]);
    assert_eq!((cpu.reg.a, cpu.reg.f), (0x9D, 0x10));
    let (cpu, _) = run(Registers { a: 0x81, ..blank() }, &[0x1F], &[]);
    assert_eq!((cpu.reg.a, cpu.reg.f), (0x40, 0x10));
    let (cpu, _) = run(Registers { a: 0x01, f: 0x10, ..blank() }, &[0x1F], &[]);
    assert_eq!((cpu.reg.a, cpu.reg.f), (0x80, 0x10));
    for opcode in [0x07u8, 0x0F, 0x17, 0x1F] {
        let (cpu, _) = run(Registers { a: 0x00, f: 0x80, ..blank() }, &[opcode], &[]);
        assert_eq!((cpu.reg.a, cpu.reg.f), (0x00, 0x00));
    }
}

#[test]
fn prefixed_shifts_on_registers() {
    // (opcode, value of the target, F before, result, F after)
    let cases: [(u8, u8, u8, u8, u8); 16] = [
        (0x00, 0x85, 0x00, 0x0B, 0x10),
        (0x00, 0x00, 0x10, 0x00, 0x80),
        (0x09, 0x01, 0x00, 0x80, 0x10),
        (0x12, 0x80, 0x00, 0x00, 0x90),
        (0x12, 0x11, 0x10, 0x23, 0x00),
        (0x1B, 0x01, 0x00, 0x00, 0x90),
        (0x1B, 0x8A, 0x10, 0xC5, 0x00),
        (0x24, 0x80, 0x00, 0x00, 0x90),
        (0x24, 0xFF, 0x00, 0xFE, 0x10),
        (0x2D, 0x8A, 0x00, 0xC5, 0x00),
        (0x2D, 0x01, 0x00, 0x00, 0x90),
        (0x37, 0xF0, 0x10, 0x0F, 0x00),
        (0x37, 0x00, 0x10, 0x00, 0x80),
        (0x37, 0xA5, 0x00, 0x5A, 0x00),
        (0x38, 0x01, 0x00, 0x00, 0x90),
        (0x38, 0xFF, 0x00, 0x7F, 0x10),
    ];
    for (opcode, v, f, result, flags) in cases {
        let reg = Registers { a: v, b: v, c: v, d: v, e: v, h: v, l: v, f, ..blank() };
        let (cpu, n) = run(reg, &[0xCB, opcode], &[]);
        let regs = [cpu.reg.b, cpu.reg.c, cpu.reg.d, cpu.reg.e, cpu.reg.h, cpu.reg.l, 0, cpu.reg.a];
        for (i, r) in regs.iter().enumerate() {
            if i == (opcode % 8) as usize {
                assert_eq!(*r, result, "opcode CB {:02X}", opcode);
            } else if i != 6 {
                assert_eq!(*r, v);
            }
        }
        assert_eq!(cpu.reg.f, flags, "opcode CB {:02X}", opcode);
        assert_eq!(n, 2);
        assert_eq!(cpu.mmu.device().cycles, vec![rd(0xC001, opcode), rd(0xC002, 0x00)]);
    }
}

#[test]
fn prefixed_shifts_at_hl() {
    let reg = Registers { h: 0xD1, l: 0x23, f: 0x10, ..blank() };
    let (cpu, n) = run(reg, &[0xCB, 0x16], &[(0xD123, 0x80)]);
    assert_eq!((cpu.mmu.device().mem[0xD123], cpu.reg.f, n), (0x01, 0x10, 4));
    assert_eq!(
        cpu.mmu.device().cycles,
        vec![rd(0xC001, 0x16), rd(0xD123, 0x80), wr(0xD123, 0x01), rd(0xC002, 0x00)]
    );
    let (cpu, _) = run(reg, &[0xCB, 0x36], &[(0xD123, 0x00)]);
    assert_eq!((cpu.mmu.device().mem[0xD123], cpu.reg.f), (0x00, 0x80));
    let (cpu, _) = run(reg, &[0xCB, 0x3E], &[(0xD123, 0x01)]);
    assert_eq!((cpu.mmu.device().mem[0xD123], cpu.reg.f), (0x00, 0x90));
}

#[test]
fn prefixed_shift_zero_flag_follows_the_result() {
    for opcode in 0u8..0x40 {
        for v in [0x00u8, 0x01, 0x80, 0xFF, 0x10] {
            for f in [0x00u8, 0x10] {
                let reg = Registers { a: v, b: v, c: v, d: v, e: v, h: 0xD1, l: 0x23, f, ..blank() };
                let (cpu, _) = run(reg, &[0xCB, opcode], &[(0xD123, v)]);
                let result = match opcode % 8 {
                    0 => cpu.reg.b,
                    1 => cpu.reg.c,
                    2 => cpu.reg.d,
                    3 => cpu.reg.e,
                    4 => cpu.reg.h,
                    5 => cpu.reg.l,
                    6 => cpu.mmu.device().mem[0xD123],
                    _ => cpu.reg.a,
                };
                assert_eq!(cpu.reg.get_flag(CpuFlag::Z), result == 0, "opcode CB {:02X}", opcode);
                assert!(!cpu.reg.get_flag(CpuFlag::N) && !cpu.reg.get_flag(CpuFlag::H));
            }
        }
    }
}

#[test]
fn bit_tests_one_bit() {
    let (cpu, n) = run(Registers { h: 0x80, f: 0x50, ..blank() }, &[0xCB, 0x7C], &[]);
    assert_eq!((cpu.reg.f, n), (0x30, 2));
    let (cpu, _) = run(Registers { l: 0xEF, f: 0x00, ..blank() }, &[0xCB, 0x65], &[]);
    assert_eq!(cpu.reg.f, 0xA0);
    let reg = Registers { h: 0xD1, l: 0x23, ..blank() };
    let (cpu, n) = run(reg, &[0xCB, 0x46], &[(0xD123, 0x01)]);
    assert_eq!((cpu.reg.f, n), (0x20, 3));
    assert_eq!(
        cpu.mmu.device().cycles,
        vec![rd(0xC001, 0x46), rd(0xD123, 0x01), rd(0xC002, 0x00)]
    );
    for bit in 0u8..8 {
        let opcode = 0x47 + 8 * bit;
        let (cpu, _) = run(Registers { a: 1 << bit, ..blank() }, &[0xCB, opcode], &[]);
        assert!(!cpu.reg.get_flag(CpuFlag::Z));
        let (cpu, _) = run(Registers { a: !(1 << bit), ..blank() }, &[0xCB, opcode], &[]);
        assert!(cpu.reg.get_flag(CpuFlag::Z));
    }
}

#[test]
fn res_and_set_touch_no_flag() {
    let (cpu, n) = run(Registers { a: 0xFF, f: 0xF0, ..blank() }, &[0xCB, 0x87], &[]);
    assert_eq!((cpu.reg.a, cpu.reg.f, n), (0xFE, 0xF0, 2));
    let (cpu, _) = run(Registers { b: 0xFF, ..blank() }, &[0xCB, 0xB8], &[]);
    assert_eq!((cpu.reg.b, cpu.reg.f), (0x7F, 0x00));
    let (cpu, _) = run(Registers { e: 0x00, f: 0x90, ..blank() }, &[0xCB, 0xDB], &[]);
    assert_eq!((cpu.reg.e, cpu.reg.f), (0x08, 0x90));
    let reg = Registers { h: 0xD1, l: 0x23, ..blank() };
    let (cpu, n) = run(reg, &[0xCB, 0xFE], &[(0xD123, 0x01)]);
    assert_eq!((cpu.mmu.device().mem[0xD123], n), (0x81, 4));
    let (cpu, n) = run(reg, &[0xCB, 0x86], &[(0xD123, 0xFF)]);
    assert_eq!((cpu.mmu.device().mem[0xD123], n), (0xFE, 4));
    assert_eq!(
        cpu.mmu.device().cycles,
        vec![rd(0xC001, 0x86), rd(0xD123, 0xFF), wr(0xD123, 0xFE), rd(0xC002, 0x00)]
    );
}

#[test]
fn daa_corrects_to_decimal() {
    // (A before, F before, A after, F after)
    let cases: [(u8, u8, u8, u8); 9] = [
        (0x00, 0x00, 0x00, 0x80),
        (0x0A, 0x00, 0x10, 0x00),
        (0x9A, 0x00, 0x00, 0x90),
        (0xA0, 0x00, 0x00, 0x90),
        (0x12, 0x20, 0x18, 0x00),
        (0x12, 0x10, 0x72, 0x10),
        (0x0F, 0x60, 0x09, 0x40),
        (0x90, 0x50, 0x30, 0x50),
        (0x66, 0x70, 0x00, 0xD0),
    ];
    for (a, f, result, flags) in cases {
        let (cpu, n) = run(Registers { a, f, ..blank() }, &[0x27], &[]);
        assert_eq!((cpu.reg.a, cpu.reg.f, n), (result, flags, 1), "A={:02X} F={:02X}", a, f);
    }
}

#[test]
fn cpl_scf_ccf() {
    let (cpu, n) = run(Registers { a: 0x35, f: 0x90, ..blank() }, &[0x2F], &[]);
    assert_eq!((cpu.reg.a, cpu.reg.f, n), (0xCA, 0xF0, 1));
    let (cpu, _) = run(Registers { a: 0x00, f: 0x00, ..blank() }, &[0x2F], &[]);
    assert_eq!((cpu.reg.a, cpu.reg.f), (0xFF, 0x60));
    let (cpu, _) = run(Registers { f: 0xE0, ..blank() }, &[0x37], &[]);
    assert_eq!(cpu.reg.f, 0x90);
    let (cpu, _) = run(Registers { f: 0x00, ..blank() }, &[0x37], &[]);
    assert_eq!(cpu.reg.f, 0x10);
    let (cpu, _) = run(Registers { f: 0xF0, ..blank() }, &[0x3F], &[]);
    assert_eq!(cpu.reg.f, 0x80);
    let (cpu, _) = run(Registers { f: 0x60, ..blank() }, &[0x3F], &[]);
    assert_eq!(cpu.reg.f, 0x10);
}

#[test]
fn register_to_register_loads() {
    let reg = Registers { a: 1, b: 2, c: 3, d: 4, e: 5, h: 6, l: 7, f: 0xF0, ..blank() };
    let sources = [2u8, 3, 4, 5, 6, 7, 0, 1];
    for opcode in 0x40u8..0x80 {
        let dst = (opcode / 8) % 8;
        let src = opcode % 8;
        if dst == 6 || src == 6 {
            continue;
        }
        let (cpu, n) = run(reg, &[opcode], &[]);
        let after = [cpu.reg.b, cpu.reg.c, cpu.reg.d, cpu.reg.e, cpu.reg.h, cpu.reg.l, 0, cpu.reg.a];
        for i in 0..8usize {
            if i == 6 {
                continue;
            }
            let expected = if i == dst as usize { sources[src as usize] } else { sources[i] };
            assert_eq!(after[i], expected, "opcode {:02X}", opcode);
        }
        assert_eq!((cpu.reg.f, n), (0xF0, 1));
        assert_eq!(cpu.mmu.device().cycles, vec![rd(0xC001, 0x00)]);
    }
}

#[test]
fn loads_through_hl() {
    let reg = Registers { a: 0x11, d: 0x44, h: 0xD1, l: 0x23, ..blank() };
    let (cpu, n) = run(reg, &[0x4E], &[(0xD123, 0x99)]);
    assert_eq!((cpu.reg.c, n), (0x99, 2));
    assert_eq!(cpu.mmu.device().cycles, vec![rd(0xD123, 0x99), rd(0xC001, 0x00)]);
    let (cpu, _) = run(reg, &[0x66], &[(0xD123, 0x99)]);
    assert_eq!(cpu.reg.hl(), 0x9923);
    let (cpu, n) = run(reg, &[0x72], &[]);
    assert_eq!((cpu.mmu.device().mem[0xD123], n), (0x44, 2));
    assert_eq!(cpu.mmu.device().cycles, vec![wr(0xD123, 0x44), rd(0xC001, 0x00)]);
    let (cpu, _) = run(reg, &[0x75], &[]);
    assert_eq!(cpu.mmu.device().mem[0xD123], 0x23);
    let (cpu, n) = run(reg, &[0x36, 0x5A], &[]);
    assert_eq!((cpu.mmu.device().mem[0xD123], n), (0x5A, 3));
    assert_eq!(
        cpu.mmu.device().cycles,
        vec![rd(0xC001, 0x5A), wr(0xD123, 0x5A), rd(0xC002, 0x00)]
    );
}

#[test]
fn loads_with_increment_and_decrement() {
    let (cpu, n) = run(Registers { h: 0xFF, l: 0xFF, ..blank() }, &[0x2A], &[(0xFFFF, 0x77)]);
    assert_eq!((cpu.reg.a, cpu.reg.hl(), n), (0x77, 0x0000, 2));
    let (cpu, _) = run(Registers { h: 0xD0, l: 0x00, ..blank() }, &[0x3A], &[(0xD000, 0x78)]);
    assert_eq!((cpu.reg.a, cpu.reg.hl()), (0x78, 0xCFFF));
    let (cpu, n) = run(Registers { a: 0x42, h: 0xD0, l: 0xFF, ..blank() }, &[0x22], &[]);
    assert_eq!((cpu.mmu.device().mem[0xD0FF], cpu.reg.hl(), n), (0x42, 0xD100, 2));
    let (cpu, _) = run(Registers { a: 0x42, h: 0x00, l: 0x00, ..blank() }, &[0x32], &[]);
    assert_eq!((cpu.mmu.device().mem[0x0000], cpu.reg.hl()), (0x42, 0xFFFF));
}

#[test]
fn loads_through_bc_de_and_the_high_page() {
    let reg = Registers { a: 0x42, b: 0xD2, c: 0x80, d: 0xD3, e: 0x01, ..blank() };
    let (cpu, _) = run(reg, &[0x0A], &[(0xD280, 0x10)]);
    assert_eq!(cpu.reg.a, 0x10);
    let (cpu, _) = run(reg, &[0x1A], &[(0xD301, 0x11)]);
    assert_eq!(cpu.reg.a, 0x11);
    let (cpu, _) = run(reg, &[0x02], &[]);
    assert_eq!(cpu.mmu.device().mem[0xD280], 0x42);
    let (cpu, _) = run(reg, &[0x12], &[]);
    assert_eq!(cpu.mmu.device().mem[0xD301], 0x42);
    let (cpu, n) = run(reg, &[0xE0, 0x90], &[]);
    assert_eq!((cpu.mmu.device().mem[0xFF90], n), (0x42, 3));
    assert_eq!(
        cpu.mmu.device().cycles,
        vec![rd(0xC001, 0x90), wr(0xFF90, 0x42), rd(0xC002, 0x00)]
    );
    let (cpu, n) = run(reg, &[0xF0, 0x91], &[(0xFF91, 0x33)]);
    assert_eq!((cpu.reg.a, n), (0x33, 3));
    let (cpu, n) = run(reg, &[0xE2], &[]);
    assert_eq!((cpu.mmu.device().mem[0xFF80], n), (0x42, 2));
    let (cpu, n) = run(reg, &[0xF2], &[(0xFF80, 0x34)]);
    assert_eq!((cpu.reg.a, n), (0x34, 2));
    let (cpu, n) = run(reg, &[0xEA, 0x34, 0xD2], &[]);
    assert_eq!((cpu.mmu.device().mem[0xD234], n), (0x42, 4));
    let (cpu, n) = run(reg, &[0xFA, 0x34, 0xD2], &[(0xD234, 0x35)]);
    assert_eq!((cpu.reg.a, n), (0x35, 4));
    assert_eq!(
        cpu.mmu.device().cycles,
        vec![rd(0xC001, 0x34), rd(0xC002, 0xD2), rd(0xD234, 0x35), rd(0xC003, 0x00)]
    );
}

#[test]
fn immediate_loads() {
    for (opcode, pick) in [
        (0x06u8, 0usize),
        (0x0E, 1),
        (0x16, 2),
        (0x1E, 3),
        (0x26, 4),
        (0x2E, 5),
        (0x3E, 6),
    ] {
        let (cpu, n) = run(blank(), &[opcode, 0x5A], &[]);
        let regs = [cpu.reg.b, cpu.reg.c, cpu.reg.d, cpu.reg.e, cpu.reg.h, cpu.reg.l, cpu.reg.a];
        for (i, r) in regs.iter().enumerate() {
            assert_eq!(*r, if i == pick { 0x5A } else { 0 });
        }
        assert_eq!(n, 2);
    }
    let (cpu, n) = run(blank(), &[0x01, 0x34, 0x12], &[]);
    assert_eq!((cpu.reg.bc(), n), (0x1234, 3));
    let (cpu, _) = run(blank(), &[0x11, 0x34, 0x12], &[]);
    assert_eq!(cpu.reg.de(), 0x1234);
    let (cpu, _) = run(blank(), &[0x21, 0x34, 0x12], &[]);
    assert_eq!(cpu.reg.hl(), 0x1234);
    let (cpu, _) = run(blank(), &[0x31, 0x34, 0x12], &[]);
    assert_eq!(cpu.reg.sp, 0x1234);
    assert_eq!(next_pc(&cpu), 0xC003);
}

#[test]
fn sp_is_stored_low_byte_first_and_loads_back() {
    let reg = Registers { sp: 0xFFF8, ..blank() };
    let mut cpu = machine(reg, &[0x08, 0x00, 0xD1, 0x31, 0x00, 0x00, 0xF9], &[]);
    assert_eq!(cpu.step(), Ok(5));
    assert_eq!(cpu.mmu.device().mem[0xD100], 0xF8);
    assert_eq!(cpu.mmu.device().mem[0xD101], 0xFF);
    assert_eq!(
        cpu.mmu.device().cycles,
        vec![
            rd(0xC001, 0x00),
            rd(0xC002, 0xD1),
            wr(0xD100, 0xF8),
            wr(0xD101, 0xFF),
            rd(0xC003, 0x31),
        ]
    );
    // SP is overwritten, then restored from the two stored bytes.
    assert_eq!(cpu.step(), Ok(3));
    assert_eq!(cpu.reg.sp, 0x0000);
    let lo = cpu.mmu.device().mem[0xD100];
    let hi = cpu.mmu.device().mem[0xD101];
    let mut again = machine(Registers { sp: 0, ..blank() }, &[0x31, lo, hi], &[]);
    assert_eq!(again.step(), Ok(3));
    assert_eq!(again.reg.sp, 0xFFF8);
}

#[test]
fn ld_hl_sp_plus_offset() {
    let (cpu, n) = run(Registers { sp: 0xFFF8, f: 0xF0, ..blank() }, &[0xF8, 0x02], &[]);
    assert_eq!((cpu.reg.hl(), cpu.reg.sp, cpu.reg.f, n), (0xFFFA, 0xFFF8, 0x00, 3));
    assert_eq!(cpu.mmu.device().cycles, vec![rd(0xC001, 0x02), IDLE, rd(0xC002, 0x00)]);
    let (cpu, _) = run(Registers { sp: 0x0001, ..blank() }, &[0xF8, 0xFE], &[]);
    assert_eq!((cpu.reg.hl(), cpu.reg.f), (0xFFFF, 0x00));
    let (cpu, _) = run(Registers { sp: 0x00FF, ..blank() }, &[0xF8, 0x01], &[]);
    assert_eq!((cpu.reg.hl(), cpu.reg.f), (0x0100, 0x30));
    let (cpu, _) = run(Registers { sp: 0x0010, ..blank() }, &[0xF8, 0xF0], &[]);
    assert_eq!((cpu.reg.hl(), cpu.reg.f), (0x0000, 0x10));
    let (cpu, n) = run(Registers { h: 0x12, l: 0x34, f: 0xF0, ..blank() }, &[0xF9], &[]);
    assert_eq!((cpu.reg.sp, cpu.reg.f, n), (0x1234, 0xF0, 2));
    assert_eq!(cpu.mmu.device().cycles, vec![IDLE, rd(0xC001, 0x00)]);
}

#[test]
fn push_then_pop_restores_everything() {
    let reg =
        Registers { a: 0x12, f: 0xB0, b: 0x34, c: 0x56, d: 0x78, e: 0x9A, h: 0xBC, l: 0xDE, ..blank() };
    for (push, pop, hi, lo) in [
        (0xC5u8, 0xC1u8, 0x34u8, 0x56u8),
        (0xD5, 0xD1, 0x78, 0x9A),
        (0xE5, 0xE1, 0xBC, 0xDE),
        (0xF5, 0xF1, 0x12, 0xB0),
    ] {
        let mut cpu = machine(reg, &[push, pop], &[]);
        assert_eq!(cpu.step(), Ok(4));
        assert_eq!(cpu.reg.sp, 0xDFEE);
        assert_eq!(cpu.mmu.device().mem[0xDFEF], hi);
        assert_eq!(cpu.mmu.device().mem[0xDFEE], lo);
        assert_eq!(
            cpu.mmu.device().cycles,
            vec![IDLE, wr(0xDFEF, hi), wr(0xDFEE, lo), rd(0xC001, pop)]
        );
        assert_eq!(cpu.step(), Ok(3));
        assert_eq!(cpu.reg, Registers { pc: 0xC003, ..reg });
        assert_eq!(
            cpu.mmu.device().cycles[4..],
            [rd(0xDFEE, lo), rd(0xDFEF, hi), rd(0xC002, 0x00)]
        );
    }
}

#[test]
fn pop_af_masks_the_low_nibble() {
    let (cpu, n) =
        run(Registers { sp: 0xD000, ..blank() }, &[0xF1], &[(0xD000, 0xFF), (0xD001, 0xA5)]);
    assert_eq!((cpu.reg.a, cpu.reg.f, cpu.reg.sp, n), (0xA5, 0xF0, 0xD002, 3));
    let (cpu, _) =
        run(Registers { sp: 0xFFFF, ..blank() }, &[0xC1], &[(0xFFFF, 0x01), (0x0000, 0x02)]);
    assert_eq!((cpu.reg.bc(), cpu.reg.sp), (0x0201, 0x0001));
    let (cpu, _) = run(Registers { sp: 0x0001, h: 0xAB, l: 0xCD, ..blank() }, &[0xE5], &[]);
    assert_eq!(cpu.reg.sp, 0xFFFF);
    assert_eq!(cpu.mmu.device().mem[0x0000], 0xAB);
    assert_eq!(cpu.mmu.device().mem[0xFFFF], 0xCD);
}

#[test]
fn relative_jumps() {
    let (cpu, n) = run(blank(), &[0x18, 0xFE], &[]);
    assert_eq!((next_pc(&cpu), n), (0xC000, 3));
    let (cpu, n) = run(blank(), &[0x18, 0x7F], &[]);
    assert_eq!((next_pc(&cpu), n), (0xC081, 3));
    let (cpu, _) = run(blank(), &[0x18, 0x80], &[]);
    assert_eq!(next_pc(&cpu), 0xBF82);
    // (opcode, F, taken)
    for (opcode, f, taken) in [
        (0x20u8, 0x00u8, true),
        (0x20, 0x80, false),
        (0x28, 0x80, true),
        (0x28, 0x00, false),
        (0x30, 0x00, true),
        (0x30, 0x10, false),
        (0x38, 0x10, true),
        (0x38, 0x00, false),
    ] {
        let (cpu, n) = run(Registers { f, ..blank() }, &[opcode, 0x10], &[]);
        if taken {
            assert_eq!((next_pc(&cpu), n), (0xC012, 3), "opcode {:02X}", opcode);
            assert_eq!(
                cpu.mmu.device().cycles,
                vec![rd(0xC001, 0x10), IDLE, rd(0xC012, 0x00)]
            );
        } else {
            assert_eq!((next_pc(&cpu), n), (0xC002, 2), "opcode {:02X}", opcode);
            assert_eq!(cpu.mmu.device().cycles, vec![rd(0xC001, 0x10), rd(0xC002, 0x00)]);
        }
        assert_eq!(cpu.reg.f, f);
    }
}

#[test]
fn absolute_jumps() {
    let (cpu, n) = run(blank(), &[0xC3, 0x34, 0x12], &[]);
    assert_eq!((next_pc(&cpu), n), (0x1234, 4));
    assert_eq!(
        cpu.mmu.device().cycles,
        vec![rd(0xC001, 0x34), rd(0xC002, 0x12), IDLE, rd(0x1234, 0x00)]
    );
    let (cpu, n) = run(Registers { h: 0x43, l: 0x21, ..blank() }, &[0xE9], &[]);
    assert_eq!((next_pc(&cpu), n), (0x4321, 1));
    assert_eq!(cpu.mmu.device().cycles, vec![rd(0x4321, 0x00)]);
    for (opcode, f, taken) in [
        (0xC2u8, 0x00u8, true),
        (0xC2, 0x80, false),
        (0xCA, 0x80, true),
        (0xCA, 0x00, false),
        (0xD2, 0x00, true),
        (0xD2, 0x10, false),
        (0xDA, 0x10, true),
        (0xDA, 0x00, false),
    ] {
        let (cpu, n) = run(Registers { f, ..blank() }, &[opcode, 0x34, 0x12], &[]);
        if taken {
            assert_eq!((next_pc(&cpu), n), (0x1234, 4), "opcode {:02X}", opcode);
        } else {
            assert_eq!((next_pc(&cpu), n), (0xC003, 3), "opcode {:02X}", opcode);
            assert_eq!(
                cpu.mmu.device().cycles,
                vec![rd(0xC001, 0x34), rd(0xC002, 0x12), rd(0xC003, 0x00)]
            );
        }
    }
}

#[test]
fn calls_and_returns() {
    for (opcode, f, taken) in [
        (0xC4u8, 0x00u8, true),
        (0xC4, 0x80, false),
        (0xCC, 0x80, true),
        (0xCC, 0x00, false),
        (0xD4, 0x00, true),
        (0xD4, 0x10, false),
        (0xDC, 0x10, true),
        (0xDC, 0x00, false),
    ] {
        let (cpu, n) = run(Registers { f, ..blank() }, &[opcode, 0x34, 0x12], &[]);
        if taken {
            assert_eq!((next_pc(&cpu), cpu.reg.sp, n), (0x1234, 0xDFEE, 6), "opcode {:02X}", opcode);
            assert_eq!(cpu.mmu.device().mem[0xDFEF], 0xC0);
            assert_eq!(cpu.mmu.device().mem[0xDFEE], 0x03);
        } else {
            assert_eq!((next_pc(&cpu), cpu.reg.sp, n), (0xC003, 0xDFF0, 3), "opcode {:02X}", opcode);
        }
    }
    let stack = [(0xDFF0u16, 0x78u8), (0xDFF1, 0x56)];
    let (cpu, n) = run(blank(), &[0xC9], &stack);
    assert_eq!((next_pc(&cpu), cpu.reg.sp, n), (0x5678, 0xDFF2, 4));
    assert_eq!(
        cpu.mmu.device().cycles,
        vec![rd(0xDFF0, 0x78), rd(0xDFF1, 0x56), IDLE, rd(0x5678, 0x00)]
    );
    for (opcode, f, taken) in [
        (0xC0u8, 0x00u8, true),
        (0xC0, 0x80, false),
        (0xC8, 0x80, true),
        (0xC8, 0x00, false),
        (0xD0, 0x00, true),
        (0xD0, 0x10, false),
        (0xD8, 0x10, true),
        (0xD8, 0x00, false),
    ] {
        let (cpu, n) = run(Registers { f, ..blank() }, &[opcode], &stack);
        if taken {
            assert_eq!((next_pc(&cpu), cpu.reg.sp, n), (0x5678, 0xDFF2, 5), "opcode {:02X}", opcode);
            assert_eq!(
                cpu.mmu.device().cycles,
                vec![IDLE, rd(0xDFF0, 0x78), rd(0xDFF1, 0x56), IDLE, rd(0x5678, 0x00)]
            );
        } else {
            assert_eq!((next_pc(&cpu), cpu.reg.sp, n), (0xC001, 0xDFF0, 2), "opcode {:02X}", opcode);
            assert_eq!(cpu.mmu.device().cycles, vec![IDLE, rd(0xC001, 0x00)]);
        }
    }
}

#[test]
fn call_then_ret_comes_back() {
    let mut cpu = machine(blank(), &[0xCD, 0x00, 0xD0, 0x3C], &[(0xD000, 0xC9)]);
    assert_eq!(cpu.step(), Ok(6));
    assert_eq!(cpu.step(), Ok(4));
    assert_eq!((next_pc(&cpu), cpu.reg.sp, cpu.prefetched), (0xC003, 0xDFF0, 0x3C));
}

#[test]
fn restarts() {
    for (opcode, vector) in [
        (0xC7u8, 0x00u16),
        (0xCF, 0x08),
        (0xD7, 0x10),
        (0xDF, 0x18),
        (0xE7, 0x20),
        (0xEF, 0x28),
        (0xF7, 0x30),
        (0xFF, 0x38),
    ] {
        let (cpu, n) = run(blank(), &[opcode], &[(vector, 0x55)]);
        assert_eq!((next_pc(&cpu), cpu.reg.sp, n), (vector, 0xDFEE, 4));
        assert_eq!(
            cpu.mmu.device().cycles,
            vec![IDLE, wr(0xDFEF, 0xC0), wr(0xDFEE, 0x01), rd(vector, 0x55)]
        );
    }
}

#[test]
fn pc_wraps_around() {
    let mut mem = vec![0u8; 0x1_0000];
    mem[0xFFFF] = 0x3E;
    mem[0x0000] = 0x42;
    mem[0x0001] = 0x04;
    let mut cpu = Cpu {
        reg: Registers { pc: 0x0000, ..blank() },
        halted: false,
        stopped: false,
        ime: false,
        ime_scheduled: false,
        prefetched: 0x3E,
        mmu: Bus::new(Ram { mem, cycles: Vec::new() }),
    };
    assert_eq!(cpu.step(), Ok(2));
    assert_eq!(cpu.reg.a, 0x42);
    assert_eq!(cpu.prefetched, 0x04);
    assert_eq!(cpu.doctor_log_state().pc, 0x0001);
    assert_eq!(cpu.mmu.device().cycles, vec![rd(0x0000, 0x42), rd(0x0001, 0x04)]);
    let mut mem = vec![0u8; 0x1_0000];
    mem[0xFFFF] = 0x04;
    let mut cpu = Cpu {
        reg: Registers { pc: 0xFFFF, ..blank() },
        halted: false,
        stopped: false,
        ime: false,
        ime_scheduled: false,
        prefetched: 0x00,
        mmu: Bus::new(Ram { mem, cycles: Vec::new() }),
    };
    assert_eq!(cpu.step(), Ok(1));
    assert_eq!(cpu.reg.pc, 0x0000);
    assert_eq!(cpu.doctor_log_state().pc, 0xFFFF);
}

#[test]
fn handlers_can_be_called_on_their_own() {
    let reg = Registers { a: 0x81, b: 0x01, h: 0xD1, l: 0x23, ..blank() };
    let mut cpu = machine(reg, &[0x00, 0x10, 0xD0], &[]);
    assert_eq!(emu_core::alu::add(&mut cpu, 0x80), 1);
    assert_eq!((cpu.reg.a, cpu.reg.f), (0x82, 0x00));
    assert_eq!(emu_core::alu::sub(&mut cpu, 0x90), 1);
    assert_eq!((cpu.reg.a, cpu.reg.f), (0x81, 0x40));
    assert_eq!(adc(&mut cpu, 0x88), 1);
    assert_eq!(sbc(&mut cpu, 0x98), 1);
    assert_eq!(cpu.reg.a, 0x81);
    assert_eq!(and(&mut cpu, 0xA0), 1);
    assert_eq!((cpu.reg.a, cpu.reg.f), (0x01, 0x20));
    assert_eq!(or(&mut cpu, 0xB0), 1);
    assert_eq!(xor(&mut cpu, 0xA8), 1);
    assert_eq!((cpu.reg.a, cpu.reg.f), (0x00, 0x80));
    assert_eq!(cp(&mut cpu, 0xB8), 1);
    assert_eq!(cpu.reg.f, 0x70);
    assert_eq!(incr(&mut cpu, 0x3C), 1);
    assert_eq!(decr(&mut cpu, 0x05), 1);
    assert_eq!((cpu.reg.a, cpu.reg.b), (0x01, 0x00));
    assert_eq!(rlca(&mut cpu), 1);
    assert_eq!(rrca(&mut cpu), 1);
    assert_eq!(rla(&mut cpu), 1);
    assert_eq!(rra(&mut cpu), 1);
    assert_eq!(cpu.reg.a, 0x01);
    assert_eq!(rlc(&mut cpu, 0x07), 2);
    assert_eq!(rrc(&mut cpu, 0x0F), 2);
    assert_eq!(rl(&mut cpu, 0x17), 2);
    assert_eq!(rr(&mut cpu, 0x1F), 2);
    assert_eq!(sla(&mut cpu, 0x27), 2);
    assert_eq!(sra(&mut cpu, 0x2F), 2);
    assert_eq!(swap(&mut cpu, 0x37), 2);
    assert_eq!(srl(&mut cpu, 0x3F), 2);
    assert_eq!(cpu.reg.a, 0x08);
    assert_eq!(bit(&mut cpu, 0x5F), 2);
    assert!(!cpu.reg.get_flag(CpuFlag::Z));
    assert_eq!(res(&mut cpu, 0x9F), 2);
    assert_eq!(emu_core::shifts::set(&mut cpu, 0xC7), 2);
    assert_eq!(cpu.reg.a, 0x01);
    assert!(cpu.mmu.device().cycles.is_empty());
    assert_eq!(cpu.reg.pc, 0xC001);

    assert_eq!(ld_cst_to_reg(&mut cpu, 0x06), 2);
    assert_eq!((cpu.reg.b, cpu.reg.pc), (0x10, 0xC002));
    assert_eq!(ld_reg_to_reg(&mut cpu, 0x78), 1);
    assert_eq!(cpu.reg.a, 0x10);
    assert_eq!(ld_reg_to_mem(&mut cpu, 0x77), 2);
    assert_eq!(ld_mem_to_reg(&mut cpu, 0x4E), 2);
    assert_eq!(cpu.reg.c, 0x10);
    assert_eq!(ld_cst_to_mem(&mut cpu), 3);
    assert_eq!(cpu.mmu.device().mem[0xD123], 0xD0);
    cpu.reg.pc = 0xC001;
    assert_eq!(ld_cst16_to_reg(&mut cpu, 0x11), 3);
    assert_eq!(cpu.reg.de(), 0xD010);
    assert_eq!(push(&mut cpu, 0xD5), 4);
    assert_eq!(pop(&mut cpu, 0xC1), 3);
    assert_eq!(cpu.reg.bc(), 0xD010);

    cpu.reg.pc = 0xC001;
    assert_eq!(jr_conditional(&mut cpu, false), 2);
    assert_eq!(cpu.reg.pc, 0xC002);
    cpu.reg.pc = 0xC001;
    assert_eq!(jr_conditional(&mut cpu, true), 3);
    assert_eq!(cpu.reg.pc, 0xC012);
    cpu.reg.pc = 0xC001;
    assert_eq!(jr(&mut cpu, 0x18), 3);
    cpu.reg.pc = 0xC001;
    assert_eq!(jp_conditional(&mut cpu, false), 3);
    assert_eq!(cpu.reg.pc, 0xC003);
    cpu.reg.pc = 0xC001;
    assert_eq!(jp_conditional(&mut cpu, true), 4);
    assert_eq!(cpu.reg.pc, 0xD010);
    cpu.reg.pc = 0xC001;
    assert_eq!(jp(&mut cpu, 0xC3), 4);
    cpu.reg.pc = 0xC001;
    assert_eq!(call(&mut cpu, 0xCD), 6);
    assert_eq!(cpu.reg.pc, 0xD010);
    assert_eq!(ret(&mut cpu, 0xC9), 4);
    assert_eq!(cpu.reg.pc, 0xC003);
    assert_eq!(rst(&mut cpu, 0xEF), 4);
    assert_eq!(cpu.reg.pc, 0x0028);
    assert!(!cpu.ime);
    assert_eq!(reti(&mut cpu), 4);
    assert_eq!(cpu.reg.pc, 0xC003);
    assert!(cpu.ime);
    assert_eq!(cpu.reg.sp, 0xDFF0);
}

#[test]
fn cpu_level_helpers() {
    let mut cpu = machine(Registers { a: 0x0A, ..blank() }, &[0x00, 0x34, 0x12, 0xCB, 0x37], &[]);
    assert_eq!(cpu.read_byte(), 0x34);
    assert_eq!(cpu.reg.pc, 0xC002);
    cpu.reg.pc = 0xC001;
    assert_eq!(cpu.read_word(), 0x1234);
    assert_eq!(cpu.reg.pc, 0xC003);
    assert_eq!(cpu.daa(), 1);
    assert_eq!(cpu.reg.a, 0x10);
    assert_eq!(cpu.scf(), 1);
    assert_eq!(cpu.reg.f, 0x10);
    assert_eq!(cpu.ccf(), 1);
    assert_eq!(cpu.reg.f, 0x00);
    assert_eq!(cpu.cpl(), 1);
    assert_eq!((cpu.reg.a, cpu.reg.f), (0xEF, 0x60));
    cpu.reg.pc = 0xC004;
    assert_eq!(cpu.execute_cb(), 2);
    assert_eq!((cpu.reg.a, cpu.reg.pc), (0xFE, 0xC005));
    cpu.prefetched = 0x3C;
    assert_eq!(cpu.execute(), 1);
    assert_eq!(cpu.reg.a, 0xFF);
    assert_eq!(cpu.service_interrupt(3), 5);
    assert_eq!(cpu.reg.pc, 0x0059);
}
