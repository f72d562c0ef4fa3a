//! Arithmetic and logic: what each operation makes of the registers, and
//! the instruction families that fetch an operand and apply it.

use vstd::prelude::*;
use crate::cpu::{lemma_emitted, Cpu, Effect};
use crate::memory::{instruction_cycles, BusEvent, MemoryBus};
use crate::registers::{
    add16_needs_carry, add16_needs_half_carry, add8_needs_carry, add8_needs_half_carry,
    adc_needs_carry, adc_needs_half_carry, carry_add16, carry_add8, carry_adc8, carry_in,
    carry_sbc8, carry_sub8, displace, displaced, half_carry_add16, half_carry_add8,
    half_carry_adc8, half_carry_sbc8, half_carry_sub8, lemma_flag_bits_all, lemma_word_bytes,
    low_byte, lower, sbc_needs_carry, sbc_needs_half_carry, sub8_needs_carry,
    sub8_needs_half_carry, CpuFlag, Reg16, Reg8, Registers,
};

verus! {

/// `i` reduced modulo 256.
pub open spec fn wrap8(i: int) -> u8 {
    (i % 256) as u8
}

/// `i` reduced modulo 65536.
pub open spec fn wrap16(i: int) -> u16 {
    (i % 0x1_0000) as u16
}

/// ADD A,x.
pub open spec fn added(r: Registers, x: u8) -> Registers {
    let sum = wrap8(r.a + x);
    Registers { a: sum, ..r }.with_flags(sum == 0, false, half_carry_add8(r.a, x), carry_add8(r.a, x))
}

/// ADC A,x.
pub open spec fn added_with_carry(r: Registers, x: u8) -> Registers {
    let cy = r.flag(CpuFlag::C);
    let sum = wrap8(r.a + x + carry_in(cy));
    Registers { a: sum, ..r }.with_flags(
        sum == 0,
        false,
        half_carry_adc8(r.a, x, cy),
        carry_adc8(r.a, x, cy),
    )
}

/// SUB A,x.
pub open spec fn subtracted(r: Registers, x: u8) -> Registers {
    let diff = wrap8(r.a - x);
    Registers { a: diff, ..r }.with_flags(
        diff == 0,
        true,
        half_carry_sub8(r.a, x),
        carry_sub8(r.a, x),
    )
}

/// SBC A,x.
pub open spec fn subtracted_with_carry(r: Registers, x: u8) -> Registers {
    let cy = r.flag(CpuFlag::C);
    let diff = wrap8(r.a - x - carry_in(cy));
    Registers { a: diff, ..r }.with_flags(
        diff == 0,
        true,
        half_carry_sbc8(r.a, x, cy),
        carry_sbc8(r.a, x, cy),
    )
}

/// AND A,x.
pub open spec fn anded(r: Registers, x: u8) -> Registers {
    Registers { a: r.a & x, ..r }.with_flags(r.a & x == 0, false, true, false)
}

/// OR A,x.
pub open spec fn ored(r: Registers, x: u8) -> Registers {
    Registers { a: r.a | x, ..r }.with_flags(r.a | x == 0, false, false, false)
}

/// XOR A,x.
pub open spec fn xored(r: Registers, x: u8) -> Registers {
    Registers { a: r.a ^ x, ..r }.with_flags(r.a ^ x == 0, false, false, false)
}

/// CP A,x: the flags of SUB A,x, with A kept.
pub open spec fn compared(r: Registers, x: u8) -> Registers {
    r.with_flags(wrap8(r.a - x) == 0, true, half_carry_sub8(r.a, x), carry_sub8(r.a, x))
}

/// The flags after `v` was incremented: C stays.
pub open spec fn inc_flags(r: Registers, v: u8) -> Registers {
    r.with_flags(wrap8(v + 1) == 0, false, v & 0x0F == 0x0F, r.flag(CpuFlag::C))
}

/// The flags after `v` was decremented: C stays.
pub open spec fn dec_flags(r: Registers, v: u8) -> Registers {
    r.with_flags(wrap8(v - 1) == 0, true, v & 0x0F == 0x00, r.flag(CpuFlag::C))
}

/// ADD HL,rr: Z stays.
pub open spec fn added_to_hl(r: Registers, x: u16) -> Registers {
    r.with_hl(wrap16(r.spec_hl() + x)).with_flags(
        r.flag(CpuFlag::Z),
        false,
        half_carry_add16(r.spec_hl(), x),
        carry_add16(r.spec_hl(), x),
    )
}

/// The flags of ADD SP,e and LD HL,SP+e: H and C come from adding the
/// offset byte, read as unsigned, to the low byte of SP.
pub open spec fn sp_offset_flags(r: Registers, e: u8) -> Registers {
    r.with_flags(
        false,
        false,
        half_carry_add8(low_byte(r.sp), e),
        carry_add8(low_byte(r.sp), e),
    )
}

/// ADD SP,e: SP moves by the signed offset.
pub open spec fn added_to_sp(r: Registers, e: u8) -> Registers {
    Registers { sp: displaced(r.sp, e), ..sp_offset_flags(r, e) }
}

/// LD HL,SP+e: HL takes SP moved by the signed offset.
pub open spec fn hl_from_sp(r: Registers, e: u8) -> Registers {
    sp_offset_flags(r, e).with_hl(displaced(r.sp, e))
}

/// Does ADD A,x on the register file.
pub fn alu_add(reg: &mut Registers, x: u8)
    ensures
        *final(reg) == added(*old(reg), x),
        final(reg).wf(),
{
    let h = add8_needs_half_carry(reg.a, x);
    let c = add8_needs_carry(reg.a, x);
    reg.a = reg.a.wrapping_add(x);
    reg.set_flags(reg.a == 0, false, h, c);
}

/// Does ADC A,x on the register file.
pub fn alu_adc(reg: &mut Registers, x: u8)
    ensures
        *final(reg) == added_with_carry(*old(reg), x),
        final(reg).wf(),
{
    let cy = reg.get_flag(CpuFlag::C);
    let h = adc_needs_half_carry(reg.a, x, cy);
    let c = adc_needs_carry(reg.a, x, cy);
    let one: u8 = if cy { 1 } else { 0 };
    reg.a = reg.a.wrapping_add(x).wrapping_add(one);
    reg.set_flags(reg.a == 0, false, h, c);
}

/// Does SUB A,x on the register file.
pub fn alu_sub(reg: &mut Registers, x: u8)
    ensures
        *final(reg) == subtracted(*old(reg), x),
        final(reg).wf(),
{
    let h = sub8_needs_half_carry(reg.a, x);
    let c = sub8_needs_carry(reg.a, x);
    reg.a = reg.a.wrapping_sub(x);
    reg.set_flags(reg.a == 0, true, h, c);
}

/// Does SBC A,x on the register file.
pub fn alu_sbc(reg: &mut Registers, x: u8)
    ensures
        *final(reg) == subtracted_with_carry(*old(reg), x),
        final(reg).wf(),
{
    let cy = reg.get_flag(CpuFlag::C);
    let h = sbc_needs_half_carry(reg.a, x, cy);
    let c = sbc_needs_carry(reg.a, x, cy);
    let one: u8 = if cy { 1 } else { 0 };
    reg.a = reg.a.wrapping_sub(x).wrapping_sub(one);
    reg.set_flags(reg.a == 0, true, h, c);
}

/// Does AND A,x on the register file.
pub fn alu_and(reg: &mut Registers, x: u8)
    ensures
        *final(reg) == anded(*old(reg), x),
        final(reg).wf(),
{
    reg.a = reg.a & x;
    reg.set_flags(reg.a == 0, false, true, false);
}

/// Does OR A,x on the register file.
pub fn alu_or(reg: &mut Registers, x: u8)
    ensures
        *final(reg) == ored(*old(reg), x),
        final(reg).wf(),
{
    reg.a = reg.a | x;
    reg.set_flags(reg.a == 0, false, false, false);
}

/// Does XOR A,x on the register file.
pub fn alu_xor(reg: &mut Registers, x: u8)
    ensures
        *final(reg) == xored(*old(reg), x),
        final(reg).wf(),
{
    reg.a = reg.a ^ x;
    reg.set_flags(reg.a == 0, false, false, false);
}

/// Does CP A,x on the register file: the flags change, A stays.
pub fn alu_cp(reg: &mut Registers, x: u8)
    ensures
        *final(reg) == compared(*old(reg), x),
        final(reg).wf(),
{
    let h = sub8_needs_half_carry(reg.a, x);
    let c = sub8_needs_carry(reg.a, x);
    let diff = reg.a.wrapping_sub(x);
    reg.set_flags(diff == 0, true, h, c);
}

/// Sets the flags for the increment of `v` and returns `v + 1`, wrapping.
pub fn alu_inc(reg: &mut Registers, v: u8) -> (next: u8)
    ensures
        *final(reg) == inc_flags(*old(reg), v),
        next == wrap8(v + 1),
        final(reg).wf(),
{
    let c = reg.get_flag(CpuFlag::C);
    let next = v.wrapping_add(1);
    reg.set_flags(next == 0, false, (v & 0x0F) == 0x0F, c);
    next
}

/// Sets the flags for the decrement of `v` and returns `v - 1`, wrapping.
pub fn alu_dec(reg: &mut Registers, v: u8) -> (next: u8)
    ensures
        *final(reg) == dec_flags(*old(reg), v),
        next == wrap8(v - 1),
        final(reg).wf(),
{
    let c = reg.get_flag(CpuFlag::C);
    let next = v.wrapping_sub(1);
    reg.set_flags(next == 0, true, (v & 0x0F) == 0x00, c);
    next
}

/// Does ADD HL,x on the register file.
pub fn alu_add_hl(reg: &mut Registers, x: u16)
    ensures
        *final(reg) == added_to_hl(*old(reg), x),
        final(reg).wf(),
{
    let z = reg.get_flag(CpuFlag::Z);
    let hl = reg.hl();
    let h = add16_needs_half_carry(hl, x);
    let c = add16_needs_carry(hl, x);
    reg.set_hl(hl.wrapping_add(x));
    reg.set_flags(z, false, h, c);
}

/// Does ADD SP,e on the register file.
pub fn alu_add_sp(reg: &mut Registers, e: u8)
    ensures
        *final(reg) == added_to_sp(*old(reg), e),
        final(reg).wf(),
{
    let low = lower(reg.sp);
    let h = add8_needs_half_carry(low, e);
    let c = add8_needs_carry(low, e);
    reg.sp = displace(reg.sp, e);
    reg.set_flags(false, false, h, c);
}

/// Does LD HL,SP+e on the register file.
pub fn alu_ld_hl_sp(reg: &mut Registers, e: u8)
    ensures
        *final(reg) == hl_from_sp(*old(reg), e),
        final(reg).wf(),
{
    let low = lower(reg.sp);
    let h = add8_needs_half_carry(low, e);
    let c = add8_needs_carry(low, e);
    reg.set_hl(displace(reg.sp, e));
    reg.set_flags(false, false, h, c);
}

/// Where an instruction finds its 8-bit operand.
#[derive(Clone, Copy, Debug, PartialEq, Eq, Structural)]
pub enum Operand {
    /// In a register.
    Reg(Reg8),
    /// In memory, at the address in HL.
    AtHl,
    /// In the byte after the opcode.
    Immediate,
}

/// The register that the three-bit field `idx` names; none for 6, which
/// stands for the byte at HL.
pub open spec fn reg_at(idx: u8) -> Option<Reg8> {
    if idx == 0 {
        Some(Reg8::B)
    } else if idx == 1 {
        Some(Reg8::C)
    } else if idx == 2 {
        Some(Reg8::D)
    } else if idx == 3 {
        Some(Reg8::E)
    } else if idx == 4 {
        Some(Reg8::H)
    } else if idx == 5 {
        Some(Reg8::L)
    } else if idx == 7 {
        Some(Reg8::A)
    } else {
        None
    }
}

/// The 16-bit register that the two-bit field `idx` names.
pub open spec fn pair_at(idx: u8) -> Reg16 {
    if idx == 0 {
        Reg16::BC
    } else if idx == 1 {
        Reg16::DE
    } else if idx == 2 {
        Reg16::HL
    } else {
        Reg16::SP
    }
}

/// The operand of an arithmetic opcode: the immediate byte for opcodes
/// from 0xC0 on, else what the low three bits name.
pub open spec fn source_of(opcode: u8) -> Operand {
    if opcode >= 0xC0 {
        Operand::Immediate
    } else {
        match reg_at(opcode % 8) {
            Some(r) => Operand::Reg(r),
            None => Operand::AtHl,
        }
    }
}

/// Decodes a three-bit register field.
#[verifier::when_used_as_spec(reg_at)]
pub fn decode_reg(idx: u8) -> (r: Option<Reg8>)
    ensures
        r == reg_at(idx),
{
    if idx == 0 {
        Some(Reg8::B)
    } else if idx == 1 {
        Some(Reg8::C)
    } else if idx == 2 {
        Some(Reg8::D)
    } else if idx == 3 {
        Some(Reg8::E)
    } else if idx == 4 {
        Some(Reg8::H)
    } else if idx == 5 {
        Some(Reg8::L)
    } else if idx == 7 {
        Some(Reg8::A)
    } else {
        None
    }
}

/// Decodes a two-bit field that names a 16-bit register.
#[verifier::when_used_as_spec(pair_at)]
pub fn decode_pair(idx: u8) -> (r: Reg16)
    ensures
        r == pair_at(idx),
{
    if idx == 0 {
        Reg16::BC
    } else if idx == 1 {
        Reg16::DE
    } else if idx == 2 {
        Reg16::HL
    } else {
        Reg16::SP
    }
}

/// Decodes the operand of an arithmetic opcode.
#[verifier::when_used_as_spec(source_of)]
pub fn decode_source(opcode: u8) -> (src: Operand)
    ensures
        src == source_of(opcode),
{
    if opcode >= 0xC0 {
        Operand::Immediate
    } else {
        match decode_reg(opcode % 8) {
            Some(r) => Operand::Reg(r),
            None => Operand::AtHl,
        }
    }
}

/// An operand as fetched: its value, the registers after the fetch, and the
/// bus events of the fetch.
pub struct Fetched {
    pub val: u8,
    pub reg: Registers,
    pub ops: Seq<BusEvent>,
}

/// What fetching the operand `src` comes to when the bus answers as in
/// `e`: a register costs nothing, a byte at HL one read, an immediate one
/// read at PC, which moves on.
pub open spec fn fetched(r: Registers, src: Operand, e: Seq<BusEvent>) -> Fetched {
    match src {
        Operand::Reg(x) => Fetched { val: r.spec_get8(x), reg: r, ops: seq![] },
        Operand::AtHl => Fetched {
            val: e[0].value(),
            reg: r,
            ops: seq![BusEvent::Read { addr: r.spec_hl(), val: e[0].value() }],
        },
        Operand::Immediate => Fetched {
            val: e[0].value(),
            reg: Registers { pc: r.pc.wrapping_add(1), ..r },
            ops: seq![BusEvent::Read { addr: r.pc, val: e[0].value() }],
        },
    }
}

/// Fetches the operand `src`.
pub fn fetch<M: MemoryBus>(cpu: &mut Cpu<M>, src: Operand) -> (val: u8)
    ensures
        ({
            let f = fetched(old(cpu).reg, src, final(cpu).since(*old(cpu)));
            &&& final(cpu).follows(*old(cpu), Effect { reg: f.reg, ops: f.ops })
            &&& val == f.val
        }),
{
    match src {
        Operand::Reg(x) => {
            proof {
                lemma_emitted(old(cpu).mmu.trace(), seq![], cpu.mmu.trace());
            }
            cpu.reg.get8(x)
        },
        Operand::AtHl => {
            let val = cpu.mmu.read(cpu.reg.hl());
            proof {
                lemma_emitted(
                    old(cpu).mmu.trace(),
                    seq![BusEvent::Read { addr: old(cpu).reg.spec_hl(), val }],
                    cpu.mmu.trace(),
                );
            }
            val
        },
        Operand::Immediate => {
            let val = cpu.read_byte();
            proof {
                lemma_emitted(
                    old(cpu).mmu.trace(),
                    seq![BusEvent::Read { addr: old(cpu).reg.pc, val }],
                    cpu.mmu.trace(),
                );
            }
            val
        },
    }
}

/// The opcodes of ADD: 0x80 to 0x87 and 0xC6 to A, 0x09, 0x19, 0x29 and 0x39
/// to HL, 0xE8 to SP.
pub open spec fn is_add(opcode: u8) -> bool {
    0x80 <= opcode <= 0x87 || opcode == 0xC6 || opcode == 0xE8 || opcode == 0x09 || opcode == 0x19
        || opcode == 0x29 || opcode == 0x39
}

/// The opcodes of INC: 0x04 to 0x3C in steps of 8 on a register or on the
/// byte at HL, 0x03 to 0x33 in steps of 16 on a 16-bit register.
pub open spec fn is_incr(opcode: u8) -> bool {
    opcode < 0x40 && (opcode % 8 == 4 || opcode % 16 == 0x03)
}

/// The opcodes of DEC: 0x05 to 0x3D in steps of 8 on a register or on the
/// byte at HL, 0x0B to 0x3B in steps of 16 on a 16-bit register.
pub open spec fn is_decr(opcode: u8) -> bool {
    opcode < 0x40 && (opcode % 8 == 5 || opcode % 16 == 0x0B)
}

/// ADD A,r; ADD A,(HL); ADD A,n; ADD HL,rr, which spends one internal
/// cycle; ADD SP,e, which reads the offset and spends two.
pub open spec fn add_effect(r: Registers, opcode: u8, e: Seq<BusEvent>) -> Effect {
    if opcode == 0xE8 {
        Effect {
            reg: added_to_sp(Registers { pc: r.pc.wrapping_add(1), ..r }, e[0].value()),
            ops: seq![
                BusEvent::Read { addr: r.pc, val: e[0].value() },
                BusEvent::Internal,
                BusEvent::Internal,
            ],
        }
    } else if opcode < 0x40 {
        Effect {
            reg: added_to_hl(r, r.spec_get16(pair_at(opcode / 16))),
            ops: seq![BusEvent::Internal],
        }
    } else {
        let f = fetched(r, source_of(opcode), e);
        Effect { reg: added(f.reg, f.val), ops: f.ops }
    }
}

/// INC r; INC (HL), a read and a write; INC rr, one internal cycle and no
/// flags.
pub open spec fn incr_effect(r: Registers, opcode: u8, e: Seq<BusEvent>) -> Effect {
    if opcode % 8 == 4 {
        match reg_at(opcode / 8) {
            Some(x) => Effect {
                reg: inc_flags(r, r.spec_get8(x)).with8(x, wrap8(r.spec_get8(x) + 1)),
                ops: seq![],
            },
            None => Effect {
                reg: inc_flags(r, e[0].value()),
                ops: seq![
                    BusEvent::Read { addr: r.spec_hl(), val: e[0].value() },
                    BusEvent::Write { addr: r.spec_hl(), val: wrap8(e[0].value() + 1) },
                ],
            },
        }
    } else {
        let p = pair_at(opcode / 16);
        Effect { reg: r.with16(p, wrap16(r.spec_get16(p) + 1)), ops: seq![BusEvent::Internal] }
    }
}

/// DEC r; DEC (HL), a read and a write; DEC rr, one internal cycle and no
/// flags.
pub open spec fn decr_effect(r: Registers, opcode: u8, e: Seq<BusEvent>) -> Effect {
    if opcode % 8 == 5 {
        match reg_at(opcode / 8) {
            Some(x) => Effect {
                reg: dec_flags(r, r.spec_get8(x)).with8(x, wrap8(r.spec_get8(x) - 1)),
                ops: seq![],
            },
            None => Effect {
                reg: dec_flags(r, e[0].value()),
                ops: seq![
                    BusEvent::Read { addr: r.spec_hl(), val: e[0].value() },
                    BusEvent::Write { addr: r.spec_hl(), val: wrap8(e[0].value() - 1) },
                ],
            },
        }
    } else {
        let p = pair_at(opcode / 16);
        Effect { reg: r.with16(p, wrap16(r.spec_get16(p) - 1)), ops: seq![BusEvent::Internal] }
    }
}

/// ADD in its three forms: to A in one or two machine cycles, to HL in
/// two, to SP in four.
pub fn add<M: MemoryBus>(cpu: &mut Cpu<M>, opcode: u8) -> (cycles: u8)
    requires
        is_add(opcode),
    ensures
        ({
            let fx = add_effect(old(cpu).reg, opcode, final(cpu).since(*old(cpu)));
            &&& final(cpu).follows(*old(cpu), fx)
            &&& cycles == fx.ops.len() + 1
        }),
        final(cpu).reg.wf(),
{
    if opcode == 0xE8 {
        let offset = cpu.read_byte();
        cpu.mmu.idle();
        cpu.mmu.idle();
        alu_add_sp(&mut cpu.reg, offset);
        proof {
            lemma_emitted(
                old(cpu).mmu.trace(),
                seq![
                    BusEvent::Read { addr: old(cpu).reg.pc, val: offset },
                    BusEvent::Internal,
                    BusEvent::Internal,
                ],
                cpu.mmu.trace(),
            );
        }
        4
    } else if opcode < 0x40 {
        cpu.mmu.idle();
        let x = cpu.reg.get16(decode_pair(opcode / 16));
        alu_add_hl(&mut cpu.reg, x);
        proof {
            lemma_emitted(old(cpu).mmu.trace(), seq![BusEvent::Internal], cpu.mmu.trace());
        }
        2
    } else {
        let src = decode_source(opcode);
        let x = fetch(cpu, src);
        alu_add(&mut cpu.reg, x);
        match src {
            Operand::Reg(_) => 1,
            _ => 2,
        }
    }
}

/// INC: a register in one machine cycle, a pair in two, the byte at HL in
/// three.
pub fn incr<M: MemoryBus>(cpu: &mut Cpu<M>, opcode: u8) -> (cycles: u8)
    requires
        is_incr(opcode),
    ensures
        ({
            let fx = incr_effect(old(cpu).reg, opcode, final(cpu).since(*old(cpu)));
            &&& final(cpu).follows(*old(cpu), fx)
            &&& cycles == fx.ops.len() + 1
        }),
        old(cpu).reg.wf() ==> final(cpu).reg.wf(),
{
    if opcode % 8 == 4 {
        match decode_reg(opcode / 8) {
            Some(x) => {
                let v = cpu.reg.get8(x);
                let next = alu_inc(&mut cpu.reg, v);
                cpu.reg.set8(x, next);
                proof {
                    lemma_emitted(old(cpu).mmu.trace(), seq![], cpu.mmu.trace());
                }
                1
            },
            None => {
                let addr = cpu.reg.hl();
                let v = cpu.mmu.read(addr);
                let next = alu_inc(&mut cpu.reg, v);
                cpu.mmu.write(addr, next);
                proof {
                    lemma_emitted(
                        old(cpu).mmu.trace(),
                        seq![
                            BusEvent::Read { addr, val: v },
                            BusEvent::Write { addr, val: next },
                        ],
                        cpu.mmu.trace(),
                    );
                }
                3
            },
        }
    } else {
        let p = decode_pair(opcode / 16);
        cpu.mmu.idle();
        let v = cpu.reg.get16(p);
        cpu.reg.set16(p, v.wrapping_add(1));
        proof {
            lemma_emitted(old(cpu).mmu.trace(), seq![BusEvent::Internal], cpu.mmu.trace());
        }
        2
    }
}

/// DEC: a register in one machine cycle, a pair in two, the byte at HL in
/// three.
pub fn decr<M: MemoryBus>(cpu: &mut Cpu<M>, opcode: u8) -> (cycles: u8)
    requires
        is_decr(opcode),
    ensures
        ({
            let fx = decr_effect(old(cpu).reg, opcode, final(cpu).since(*old(cpu)));
            &&& final(cpu).follows(*old(cpu), fx)
            &&& cycles == fx.ops.len() + 1
        }),
        old(cpu).reg.wf() ==> final(cpu).reg.wf(),
{
    if opcode % 8 == 5 {
        match decode_reg(opcode / 8) {
            Some(x) => {
                let v = cpu.reg.get8(x);
                let next = alu_dec(&mut cpu.reg, v);
                cpu.reg.set8(x, next);
                proof {
                    lemma_emitted(old(cpu).mmu.trace(), seq![], cpu.mmu.trace());
                }
                1
            },
            None => {
                let addr = cpu.reg.hl();
                let v = cpu.mmu.read(addr);
                let next = alu_dec(&mut cpu.reg, v);
                cpu.mmu.write(addr, next);
                proof {
                    lemma_emitted(
                        old(cpu).mmu.trace(),
                        seq![
                            BusEvent::Read { addr, val: v },
                            BusEvent::Write { addr, val: next },
                        ],
                        cpu.mmu.trace(),
                    );
                }
                3
            },
        }
    } else {
        let p = decode_pair(opcode / 16);
        cpu.mmu.idle();
        let v = cpu.reg.get16(p);
        cpu.reg.set16(p, v.wrapping_sub(1));
        proof {
            lemma_emitted(old(cpu).mmu.trace(), seq![BusEvent::Internal], cpu.mmu.trace());
        }
        2
    }
}

/// The opcodes of SUB: 0x90 to 0x97 and 0xD6.
pub open spec fn is_sub(opcode: u8) -> bool {
    0x90 <= opcode <= 0x97 || opcode == 0xD6
}

/// The opcodes of ADC: 0x88 to 0x8F and 0xCE.
pub open spec fn is_adc(opcode: u8) -> bool {
    0x88 <= opcode <= 0x8F || opcode == 0xCE
}

/// The opcodes of SBC: 0x98 to 0x9F and 0xDE.
pub open spec fn is_sbc(opcode: u8) -> bool {
    0x98 <= opcode <= 0x9F || opcode == 0xDE
}

/// The opcodes of AND: 0xA0 to 0xA7 and 0xE6.
pub open spec fn is_and(opcode: u8) -> bool {
    0xA0 <= opcode <= 0xA7 || opcode == 0xE6
}

/// The opcodes of XOR: 0xA8 to 0xAF and 0xEE.
pub open spec fn is_xor(opcode: u8) -> bool {
    0xA8 <= opcode <= 0xAF || opcode == 0xEE
}

/// The opcodes of OR: 0xB0 to 0xB7 and 0xF6.
pub open spec fn is_or(opcode: u8) -> bool {
    0xB0 <= opcode <= 0xB7 || opcode == 0xF6
}

/// The opcodes of CP: 0xB8 to 0xBF and 0xFE.
pub open spec fn is_cp(opcode: u8) -> bool {
    0xB8 <= opcode <= 0xBF || opcode == 0xFE
}

/// SUB A,r; SUB A,(HL); SUB A,n.
pub open spec fn sub_effect(r: Registers, opcode: u8, e: Seq<BusEvent>) -> Effect {
    let f = fetched(r, source_of(opcode), e);
    Effect { reg: subtracted(f.reg, f.val), ops: f.ops }
}

/// ADC A,r; ADC A,(HL); ADC A,n.
pub open spec fn adc_effect(r: Registers, opcode: u8, e: Seq<BusEvent>) -> Effect {
    let f = fetched(r, source_of(opcode), e);
    Effect { reg: added_with_carry(f.reg, f.val), ops: f.ops }
}

/// SBC A,r; SBC A,(HL); SBC A,n.
pub open spec fn sbc_effect(r: Registers, opcode: u8, e: Seq<BusEvent>) -> Effect {
    let f = fetched(r, source_of(opcode), e);
    Effect { reg: subtracted_with_carry(f.reg, f.val), ops: f.ops }
}

/// AND A,r; AND A,(HL); AND A,n.
pub open spec fn and_effect(r: Registers, opcode: u8, e: Seq<BusEvent>) -> Effect {
    let f = fetched(r, source_of(opcode), e);
    Effect { reg: anded(f.reg, f.val), ops: f.ops }
}

/// OR A,r; OR A,(HL); OR A,n.
pub open spec fn or_effect(r: Registers, opcode: u8, e: Seq<BusEvent>) -> Effect {
    let f = fetched(r, source_of(opcode), e);
    Effect { reg: ored(f.reg, f.val), ops: f.ops }
}

/// XOR A,r; XOR A,(HL); XOR A,n.
pub open spec fn xor_effect(r: Registers, opcode: u8, e: Seq<BusEvent>) -> Effect {
    let f = fetched(r, source_of(opcode), e);
    Effect { reg: xored(f.reg, f.val), ops: f.ops }
}

/// CP A,r; CP A,(HL); CP A,n.
pub open spec fn cp_effect(r: Registers, opcode: u8, e: Seq<BusEvent>) -> Effect {
    let f = fetched(r, source_of(opcode), e);
    Effect { reg: compared(f.reg, f.val), ops: f.ops }
}

/// SUB: one machine cycle from a register, two from memory or an
/// immediate.
pub fn sub<M: MemoryBus>(cpu: &mut Cpu<M>, opcode: u8) -> (cycles: u8)
    requires
        is_sub(opcode),
    ensures
        ({
            let fx = sub_effect(old(cpu).reg, opcode, final(cpu).since(*old(cpu)));
            &&& final(cpu).follows(*old(cpu), fx)
            &&& cycles == fx.ops.len() + 1
        }),
        final(cpu).reg.wf(),
{
    let src = decode_source(opcode);
    let x = fetch(cpu, src);
    alu_sub(&mut cpu.reg, x);
    match src {
        Operand::Reg(_) => 1,
        _ => 2,
    }
}

/// ADC: one machine cycle from a register, two from memory or an
/// immediate.
pub fn adc<M: MemoryBus>(cpu: &mut Cpu<M>, opcode: u8) -> (cycles: u8)
    requires
        is_adc(opcode),
    ensures
        ({
            let fx = adc_effect(old(cpu).reg, opcode, final(cpu).since(*old(cpu)));
            &&& final(cpu).follows(*old(cpu), fx)
            &&& cycles == fx.ops.len() + 1
        }),
        final(cpu).reg.wf(),
{
    let src = decode_source(opcode);
    let x = fetch(cpu, src);
    alu_adc(&mut cpu.reg, x);
    match src {
        Operand::Reg(_) => 1,
        _ => 2,
    }
}

/// SBC: one machine cycle from a register, two from memory or an
/// immediate.
pub fn sbc<M: MemoryBus>(cpu: &mut Cpu<M>, opcode: u8) -> (cycles: u8)
    requires
        is_sbc(opcode),
    ensures
        ({
            let fx = sbc_effect(old(cpu).reg, opcode, final(cpu).since(*old(cpu)));
            &&& final(cpu).follows(*old(cpu), fx)
            &&& cycles == fx.ops.len() + 1
        }),
        final(cpu).reg.wf(),
{
    let src = decode_source(opcode);
    let x = fetch(cpu, src);
    alu_sbc(&mut cpu.reg, x);
    match src {
        Operand::Reg(_) => 1,
        _ => 2,
    }
}

/// AND: one machine cycle from a register, two from memory or an
/// immediate.
pub fn and<M: MemoryBus>(cpu: &mut Cpu<M>, opcode: u8) -> (cycles: u8)
    requires
        is_and(opcode),
    ensures
        ({
            let fx = and_effect(old(cpu).reg, opcode, final(cpu).since(*old(cpu)));
            &&& final(cpu).follows(*old(cpu), fx)
            &&& cycles == fx.ops.len() + 1
        }),
        final(cpu).reg.wf(),
{
    let src = decode_source(opcode);
    let x = fetch(cpu, src);
    alu_and(&mut cpu.reg, x);
    match src {
        Operand::Reg(_) => 1,
        _ => 2,
    }
}

/// OR: one machine cycle from a register, two from memory or an immediate.
pub fn or<M: MemoryBus>(cpu: &mut Cpu<M>, opcode: u8) -> (cycles: u8)
    requires
        is_or(opcode),
    ensures
        ({
            let fx = or_effect(old(cpu).reg, opcode, final(cpu).since(*old(cpu)));
            &&& final(cpu).follows(*old(cpu), fx)
            &&& cycles == fx.ops.len() + 1
        }),
        final(cpu).reg.wf(),
{
    let src = decode_source(opcode);
    let x = fetch(cpu, src);
    alu_or(&mut cpu.reg, x);
    match src {
        Operand::Reg(_) => 1,
        _ => 2,
    }
}

/// XOR: one machine cycle from a register, two from memory or an
/// immediate.
pub fn xor<M: MemoryBus>(cpu: &mut Cpu<M>, opcode: u8) -> (cycles: u8)
    requires
        is_xor(opcode),
    ensures
        ({
            let fx = xor_effect(old(cpu).reg, opcode, final(cpu).since(*old(cpu)));
            &&& final(cpu).follows(*old(cpu), fx)
            &&& cycles == fx.ops.len() + 1
        }),
        final(cpu).reg.wf(),
{
    let src = decode_source(opcode);
    let x = fetch(cpu, src);
    alu_xor(&mut cpu.reg, x);
    match src {
        Operand::Reg(_) => 1,
        _ => 2,
    }
}

/// CP: one machine cycle from a register, two from memory or an immediate.
pub fn cp<M: MemoryBus>(cpu: &mut Cpu<M>, opcode: u8) -> (cycles: u8)
    requires
        is_cp(opcode),
    ensures
        ({
            let fx = cp_effect(old(cpu).reg, opcode, final(cpu).since(*old(cpu)));
            &&& final(cpu).follows(*old(cpu), fx)
            &&& cycles == fx.ops.len() + 1
        }),
        final(cpu).reg.wf(),
{
    let src = decode_source(opcode);
    let x = fetch(cpu, src);
    alu_cp(&mut cpu.reg, x);
    match src {
        Operand::Reg(_) => 1,
        _ => 2,
    }
}

/// Z tells whether A is zero.
pub open spec fn zero_follows_a(r: Registers) -> bool {
    r.flag(CpuFlag::Z) == (r.a == 0)
}

/// After every 8-bit operation that writes its result to A, Z tells
/// whether A is zero: ADD, ADC, SUB, SBC, AND, XOR and OR with any operand,
/// INC A and DEC A.
///
/// CP and the increments and decrements of other registers are left out:
/// they set Z by a result that is not in A.
pub proof fn lemma_zero_flag_follows_a(r: Registers, opcode: u8, e: Seq<BusEvent>)
    ensures
        is_add(opcode) && opcode >= 0x80 && opcode != 0xE8 ==> zero_follows_a(
            add_effect(r, opcode, e).reg,
        ),
        is_adc(opcode) ==> zero_follows_a(adc_effect(r, opcode, e).reg),
        is_sub(opcode) ==> zero_follows_a(sub_effect(r, opcode, e).reg),
        is_sbc(opcode) ==> zero_follows_a(sbc_effect(r, opcode, e).reg),
        is_and(opcode) ==> zero_follows_a(and_effect(r, opcode, e).reg),
        is_xor(opcode) ==> zero_follows_a(xor_effect(r, opcode, e).reg),
        is_or(opcode) ==> zero_follows_a(or_effect(r, opcode, e).reg),
        zero_follows_a(incr_effect(r, 0x3C, e).reg),
        zero_follows_a(decr_effect(r, 0x3D, e).reg),
{
    lemma_flag_bits_all();
}

/// An 8-bit operation sets Z exactly when its result is zero, wherever the
/// result goes: CP by the difference that it does not store, INC and DEC by
/// the new value of the register or of the byte at HL.
pub proof fn lemma_zero_flag_follows_result(r: Registers, x: u8, v: u8)
    ensures
        compared(r, x).flag(CpuFlag::Z) == (r.a == x),
        compared(r, x).a == r.a,
        inc_flags(r, v).flag(CpuFlag::Z) == (wrap8(v + 1) == 0),
        dec_flags(r, v).flag(CpuFlag::Z) == (wrap8(v - 1) == 0),
        inc_flags(r, v).flag(CpuFlag::C) == r.flag(CpuFlag::C),
        dec_flags(r, v).flag(CpuFlag::C) == r.flag(CpuFlag::C),
{
    lemma_flag_bits_all();
}

/// ADD HL,rr leaves Z as it was.
pub proof fn lemma_add_hl_keeps_zero(r: Registers, opcode: u8, e: Seq<BusEvent>)
    requires
        opcode == 0x09 || opcode == 0x19 || opcode == 0x29 || opcode == 0x39,
    ensures
        add_effect(r, opcode, e).reg.flag(CpuFlag::Z) == r.flag(CpuFlag::Z),
        !add_effect(r, opcode, e).reg.flag(CpuFlag::N),
{
    lemma_flag_bits_all();
}

/// XOR A,A leaves A zero, Z set and the other flags clear.
pub proof fn lemma_xor_a_clears_a(r: Registers, e: Seq<BusEvent>)
    ensures
        xor_effect(r, 0xAF, e).reg == (Registers { a: 0, f: 0x80, ..r }),
        xor_effect(r, 0xAF, e).ops == Seq::<BusEvent>::empty(),
{
    let a = r.a;
    assert(a ^ a == 0) by (bit_vector);
}

/// ADD SP,e and LD HL,SP+e clear Z and N, and take H and C from the sum of
/// the low byte of SP and the offset byte, both read as unsigned.
pub proof fn lemma_sp_offset_flags(r: Registers, e: u8)
    ensures
        !added_to_sp(r, e).flag(CpuFlag::Z),
        !added_to_sp(r, e).flag(CpuFlag::N),
        added_to_sp(r, e).flag(CpuFlag::H) == half_carry_add8(low_byte(r.sp), e),
        added_to_sp(r, e).flag(CpuFlag::C) == (low_byte(r.sp) + e > 0xFF),
        added_to_sp(r, e).f == hl_from_sp(r, e).f,
        added_to_sp(r, e).sp == hl_from_sp(r, e).spec_hl(),
{
    lemma_flag_bits_all();
    lemma_word_bytes(displaced(r.sp, e), 0, 0);
}

/// The arithmetic instructions cause machine cycles only, four at most.
pub proof fn lemma_alu_events(r: Registers, opcode: u8, e: Seq<BusEvent>)
    ensures
        instruction_cycles(add_effect(r, opcode, e).ops),
        instruction_cycles(adc_effect(r, opcode, e).ops),
        instruction_cycles(sub_effect(r, opcode, e).ops),
        instruction_cycles(sbc_effect(r, opcode, e).ops),
        instruction_cycles(and_effect(r, opcode, e).ops),
        instruction_cycles(xor_effect(r, opcode, e).ops),
        instruction_cycles(or_effect(r, opcode, e).ops),
        instruction_cycles(cp_effect(r, opcode, e).ops),
        instruction_cycles(incr_effect(r, opcode, e).ops),
        instruction_cycles(decr_effect(r, opcode, e).ops),
{
    assert(instruction_cycles(fetched(r, source_of(opcode), e).ops));
}

} // verus!
