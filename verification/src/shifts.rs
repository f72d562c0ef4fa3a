//! Rotates, shifts and single-bit operations: the four short forms on A
//! and the prefixed page that works on any register or on the byte at HL.

use vstd::prelude::*;
use crate::alu::{decode_reg, reg_at};
use crate::cpu::{lemma_emitted, Cpu, Effect};
use crate::memory::{instruction_cycles, BusEvent, MemoryBus};
use crate::registers::{lemma_flag_bits_all, CpuFlag, Registers};

verus! {

/// The eight ways to move the bits of a byte.
#[derive(Clone, Copy, Debug, PartialEq, Eq, Structural)]
pub enum Shift {
    /// Rotate left; bit 7 goes to bit 0 and to the carry.
    Rlc,
    /// Rotate right; bit 0 goes to bit 7 and to the carry.
    Rrc,
    /// Rotate left through the carry.
    Rl,
    /// Rotate right through the carry.
    Rr,
    /// Shift left; bit 0 becomes zero.
    Sla,
    /// Shift right; bit 7 stays.
    Sra,
    /// Exchange the two nibbles.
    Swap,
    /// Shift right; bit 7 becomes zero.
    Srl,
}

/// The byte that `op` makes of `v` when the carry flag is `cy`.
pub open spec fn shifted(op: Shift, v: u8, cy: bool) -> u8 {
    match op {
        Shift::Rlc => (v << 1) | (v >> 7),
        Shift::Rrc => (v >> 1) | (v << 7),
        Shift::Rl => (v << 1) | (if cy { 0x01u8 } else { 0u8 }),
        Shift::Rr => (v >> 1) | (if cy { 0x80u8 } else { 0u8 }),
        Shift::Sla => v << 1,
        Shift::Sra => (v >> 1) | (v & 0x80),
        Shift::Swap => (v << 4) | (v >> 4),
        Shift::Srl => v >> 1,
    }
}

/// The carry that `op` leaves: the bit of `v` that it moves out, none for
/// a swap.
pub open spec fn shifted_out(op: Shift, v: u8) -> bool {
    match op {
        Shift::Rlc => v & 0x80 != 0,
        Shift::Rl => v & 0x80 != 0,
        Shift::Sla => v & 0x80 != 0,
        Shift::Rrc => v & 0x01 != 0,
        Shift::Rr => v & 0x01 != 0,
        Shift::Sra => v & 0x01 != 0,
        Shift::Srl => v & 0x01 != 0,
        Shift::Swap => false,
    }
}

/// A short rotate on A: Z, N and H are cleared whatever A becomes.
pub open spec fn rotated_a(r: Registers, op: Shift) -> Registers {
    Registers { a: shifted(op, r.a, r.flag(CpuFlag::C)), ..r }.with_flags(
        false,
        false,
        false,
        shifted_out(op, r.a),
    )
}

/// The flags after a prefixed shift of `v`: Z tells whether the result is
/// zero, N and H are cleared.
pub open spec fn shift_flags(r: Registers, op: Shift, v: u8) -> Registers {
    r.with_flags(shifted(op, v, r.flag(CpuFlag::C)) == 0, false, false, shifted_out(op, v))
}

/// The flags after BIT n on `v`: Z is set when the bit is clear, H is set,
/// C stays.
pub open spec fn bit_flags(r: Registers, n: u8, v: u8) -> Registers {
    r.with_flags(v & (1u8 << n) == 0, false, true, r.flag(CpuFlag::C))
}

/// `v` with bit `n` cleared.
pub open spec fn bit_cleared(n: u8, v: u8) -> u8 {
    v & !(1u8 << n)
}

/// `v` with bit `n` set.
pub open spec fn bit_raised(n: u8, v: u8) -> u8 {
    v | (1u8 << n)
}

/// Computes the byte that `op` makes of `v` when the carry flag is `cy`.
#[verifier::when_used_as_spec(shifted)]
pub fn shift_value(op: Shift, v: u8, cy: bool) -> (res: u8)
    ensures
        res == shifted(op, v, cy),
{
    match op {
        Shift::Rlc => (v << 1) | (v >> 7),
        Shift::Rrc => (v >> 1) | (v << 7),
        Shift::Rl => (v << 1) | (if cy { 0x01u8 } else { 0u8 }),
        Shift::Rr => (v >> 1) | (if cy { 0x80u8 } else { 0u8 }),
        Shift::Sla => v << 1,
        Shift::Sra => (v >> 1) | (v & 0x80),
        Shift::Swap => (v << 4) | (v >> 4),
        Shift::Srl => v >> 1,
    }
}

/// Computes the carry that `op` leaves when it works on `v`.
#[verifier::when_used_as_spec(shifted_out)]
pub fn shift_carry(op: Shift, v: u8) -> (c: bool)
    ensures
        c == shifted_out(op, v),
{
    match op {
        Shift::Rlc => v & 0x80 != 0,
        Shift::Rl => v & 0x80 != 0,
        Shift::Sla => v & 0x80 != 0,
        Shift::Rrc => v & 0x01 != 0,
        Shift::Rr => v & 0x01 != 0,
        Shift::Sra => v & 0x01 != 0,
        Shift::Srl => v & 0x01 != 0,
        Shift::Swap => false,
    }
}

/// Rotates A by `op` and sets the flags as the short forms do.
pub fn rotate_a(reg: &mut Registers, op: Shift)
    ensures
        *final(reg) == rotated_a(*old(reg), op),
        final(reg).wf(),
{
    let cy = reg.get_flag(CpuFlag::C);
    let c = shift_carry(op, reg.a);
    reg.a = shift_value(op, reg.a, cy);
    reg.set_flags(false, false, false, c);
}

/// Sets the flags for the prefixed shift `op` of `v` and returns the
/// shifted byte.
pub fn shift_with_flags(reg: &mut Registers, op: Shift, v: u8) -> (res: u8)
    ensures
        *final(reg) == shift_flags(*old(reg), op, v),
        res == shifted(op, v, old(reg).flag(CpuFlag::C)),
        final(reg).wf(),
{
    let cy = reg.get_flag(CpuFlag::C);
    let res = shift_value(op, v, cy);
    reg.set_flags(res == 0, false, false, shift_carry(op, v));
    res
}

/// RLA: one machine cycle.
pub fn rla<M: MemoryBus>(cpu: &mut Cpu<M>) -> (cycles: u8)
    ensures
        final(cpu).follows(*old(cpu), Effect { reg: rotated_a(old(cpu).reg, Shift::Rl), ops: seq![] }),
        cycles == 1,
        final(cpu).reg.wf(),
{
    rotate_a(&mut cpu.reg, Shift::Rl);
    proof {
        lemma_emitted(old(cpu).mmu.trace(), seq![], cpu.mmu.trace());
    }
    1
}

/// RRA: one machine cycle.
pub fn rra<M: MemoryBus>(cpu: &mut Cpu<M>) -> (cycles: u8)
    ensures
        final(cpu).follows(*old(cpu), Effect { reg: rotated_a(old(cpu).reg, Shift::Rr), ops: seq![] }),
        cycles == 1,
        final(cpu).reg.wf(),
{
    rotate_a(&mut cpu.reg, Shift::Rr);
    proof {
        lemma_emitted(old(cpu).mmu.trace(), seq![], cpu.mmu.trace());
    }
    1
}

/// RLCA: one machine cycle.
pub fn rlca<M: MemoryBus>(cpu: &mut Cpu<M>) -> (cycles: u8)
    ensures
        final(cpu).follows(
            *old(cpu),
            Effect { reg: rotated_a(old(cpu).reg, Shift::Rlc), ops: seq![] },
        ),
        cycles == 1,
        final(cpu).reg.wf(),
{
    rotate_a(&mut cpu.reg, Shift::Rlc);
    proof {
        lemma_emitted(old(cpu).mmu.trace(), seq![], cpu.mmu.trace());
    }
    1
}

/// RRCA: one machine cycle.
pub fn rrca<M: MemoryBus>(cpu: &mut Cpu<M>) -> (cycles: u8)
    ensures
        final(cpu).follows(
            *old(cpu),
            Effect { reg: rotated_a(old(cpu).reg, Shift::Rrc), ops: seq![] },
        ),
        cycles == 1,
        final(cpu).reg.wf(),
{
    rotate_a(&mut cpu.reg, Shift::Rrc);
    proof {
        lemma_emitted(old(cpu).mmu.trace(), seq![], cpu.mmu.trace());
    }
    1
}

/// The shift that the prefixed opcodes from `8 * k` to `8 * k + 7` stand
/// for, `k` below 8.
pub open spec fn shift_at(k: u8) -> Shift {
    if k == 0 {
        Shift::Rlc
    } else if k == 1 {
        Shift::Rrc
    } else if k == 2 {
        Shift::Rl
    } else if k == 3 {
        Shift::Rr
    } else if k == 4 {
        Shift::Sla
    } else if k == 5 {
        Shift::Sra
    } else if k == 6 {
        Shift::Swap
    } else {
        Shift::Srl
    }
}

/// Decodes the shift that a prefixed opcode below 0x40 stands for.
#[verifier::when_used_as_spec(shift_at)]
pub fn decode_shift(k: u8) -> (op: Shift)
    ensures
        op == shift_at(k),
{
    if k == 0 {
        Shift::Rlc
    } else if k == 1 {
        Shift::Rrc
    } else if k == 2 {
        Shift::Rl
    } else if k == 3 {
        Shift::Rr
    } else if k == 4 {
        Shift::Sla
    } else if k == 5 {
        Shift::Sra
    } else if k == 6 {
        Shift::Swap
    } else {
        Shift::Srl
    }
}

/// A prefixed shift, after the prefix and the opcode were fetched: on a
/// register no bus event, on the byte at HL a read and a write.
pub open spec fn shift_effect(r: Registers, op: Shift, opcode: u8, e: Seq<BusEvent>) -> Effect {
    match reg_at(opcode % 8) {
        Some(x) => Effect {
            reg: shift_flags(r, op, r.spec_get8(x)).with8(
                x,
                shifted(op, r.spec_get8(x), r.flag(CpuFlag::C)),
            ),
            ops: seq![],
        },
        None => Effect {
            reg: shift_flags(r, op, e[0].value()),
            ops: seq![
                BusEvent::Read { addr: r.spec_hl(), val: e[0].value() },
                BusEvent::Write {
                    addr: r.spec_hl(),
                    val: shifted(op, e[0].value(), r.flag(CpuFlag::C)),
                },
            ],
        },
    }
}

/// BIT n,x after its fetch: on the byte at HL one read, and no write.
pub open spec fn bit_effect(r: Registers, opcode: u8, e: Seq<BusEvent>) -> Effect {
    let n = (opcode / 8) % 8;
    match reg_at(opcode % 8) {
        Some(x) => Effect { reg: bit_flags(r, n, r.spec_get8(x)), ops: seq![] },
        None => Effect {
            reg: bit_flags(r, n, e[0].value()),
            ops: seq![BusEvent::Read { addr: r.spec_hl(), val: e[0].value() }],
        },
    }
}

/// RES n,x after its fetch: no flag changes.
pub open spec fn res_effect(r: Registers, opcode: u8, e: Seq<BusEvent>) -> Effect {
    let n = (opcode / 8) % 8;
    match reg_at(opcode % 8) {
        Some(x) => Effect { reg: r.with8(x, bit_cleared(n, r.spec_get8(x))), ops: seq![] },
        None => Effect {
            reg: r,
            ops: seq![
                BusEvent::Read { addr: r.spec_hl(), val: e[0].value() },
                BusEvent::Write { addr: r.spec_hl(), val: bit_cleared(n, e[0].value()) },
            ],
        },
    }
}

/// SET n,x after its fetch: no flag changes.
pub open spec fn set_effect(r: Registers, opcode: u8, e: Seq<BusEvent>) -> Effect {
    let n = (opcode / 8) % 8;
    match reg_at(opcode % 8) {
        Some(x) => Effect { reg: r.with8(x, bit_raised(n, r.spec_get8(x))), ops: seq![] },
        None => Effect {
            reg: r,
            ops: seq![
                BusEvent::Read { addr: r.spec_hl(), val: e[0].value() },
                BusEvent::Write { addr: r.spec_hl(), val: bit_raised(n, e[0].value()) },
            ],
        },
    }
}

/// Runs the prefixed shift `op` on the target that `opcode` names: two
/// machine cycles on a register, four on the byte at HL, the fetches of
/// prefix and opcode included.
pub fn shift<M: MemoryBus>(cpu: &mut Cpu<M>, op: Shift, opcode: u8) -> (cycles: u8)
    ensures
        ({
            let fx = shift_effect(old(cpu).reg, op, opcode, final(cpu).since(*old(cpu)));
            &&& final(cpu).follows(*old(cpu), fx)
            &&& cycles == fx.ops.len() + 2
        }),
        final(cpu).reg.wf(),
{
    match decode_reg(opcode % 8) {
        Some(x) => {
            let v = cpu.reg.get8(x);
            let res = shift_with_flags(&mut cpu.reg, op, v);
            cpu.reg.set8(x, res);
            proof {
                lemma_emitted(old(cpu).mmu.trace(), seq![], cpu.mmu.trace());
            }
            2
        },
        None => {
            let addr = cpu.reg.hl();
            let v = cpu.mmu.read(addr);
            let res = shift_with_flags(&mut cpu.reg, op, v);
            cpu.mmu.write(addr, res);
            proof {
                lemma_emitted(
                    old(cpu).mmu.trace(),
                    seq![BusEvent::Read { addr, val: v }, BusEvent::Write { addr, val: res }],
                    cpu.mmu.trace(),
                );
            }
            4
        },
    }
}

/// RLC x, prefixed opcodes 0x00 to 0x07.
pub fn rlc<M: MemoryBus>(cpu: &mut Cpu<M>, opcode: u8) -> (cycles: u8)
    requires
        opcode <= 0x07,
    ensures
        ({
            let fx = shift_effect(old(cpu).reg, Shift::Rlc, opcode, final(cpu).since(*old(cpu)));
            &&& final(cpu).follows(*old(cpu), fx)
            &&& cycles == fx.ops.len() + 2
        }),
        final(cpu).reg.wf(),
{
    shift(cpu, Shift::Rlc, opcode)
}

/// RRC x, prefixed opcodes 0x08 to 0x0F.
pub fn rrc<M: MemoryBus>(cpu: &mut Cpu<M>, opcode: u8) -> (cycles: u8)
    requires
        0x08 <= opcode <= 0x0F,
    ensures
        ({
            let fx = shift_effect(old(cpu).reg, Shift::Rrc, opcode, final(cpu).since(*old(cpu)));
            &&& final(cpu).follows(*old(cpu), fx)
            &&& cycles == fx.ops.len() + 2
        }),
        final(cpu).reg.wf(),
{
    shift(cpu, Shift::Rrc, opcode)
}

/// RL x, prefixed opcodes 0x10 to 0x17.
pub fn rl<M: MemoryBus>(cpu: &mut Cpu<M>, opcode: u8) -> (cycles: u8)
    requires
        0x10 <= opcode <= 0x17,
    ensures
        ({
            let fx = shift_effect(old(cpu).reg, Shift::Rl, opcode, final(cpu).since(*old(cpu)));
            &&& final(cpu).follows(*old(cpu), fx)
            &&& cycles == fx.ops.len() + 2
        }),
        final(cpu).reg.wf(),
{
    shift(cpu, Shift::Rl, opcode)
}

/// RR x, prefixed opcodes 0x18 to 0x1F.
pub fn rr<M: MemoryBus>(cpu: &mut Cpu<M>, opcode: u8) -> (cycles: u8)
    requires
        0x18 <= opcode <= 0x1F,
    ensures
        ({
            let fx = shift_effect(old(cpu).reg, Shift::Rr, opcode, final(cpu).since(*old(cpu)));
            &&& final(cpu).follows(*old(cpu), fx)
            &&& cycles == fx.ops.len() + 2
        }),
        final(cpu).reg.wf(),
{
    shift(cpu, Shift::Rr, opcode)
}

/// SLA x, prefixed opcodes 0x20 to 0x27.
pub fn sla<M: MemoryBus>(cpu: &mut Cpu<M>, opcode: u8) -> (cycles: u8)
    requires
        0x20 <= opcode <= 0x27,
    ensures
        ({
            let fx = shift_effect(old(cpu).reg, Shift::Sla, opcode, final(cpu).since(*old(cpu)));
            &&& final(cpu).follows(*old(cpu), fx)
            &&& cycles == fx.ops.len() + 2
        }),
        final(cpu).reg.wf(),
{
    shift(cpu, Shift::Sla, opcode)
}

/// SRA x, prefixed opcodes 0x28 to 0x2F.
pub fn sra<M: MemoryBus>(cpu: &mut Cpu<M>, opcode: u8) -> (cycles: u8)
    requires
        0x28 <= opcode <= 0x2F,
    ensures
        ({
            let fx = shift_effect(old(cpu).reg, Shift::Sra, opcode, final(cpu).since(*old(cpu)));
            &&& final(cpu).follows(*old(cpu), fx)
            &&& cycles == fx.ops.len() + 2
        }),
        final(cpu).reg.wf(),
{
    shift(cpu, Shift::Sra, opcode)
}

/// SWAP x, prefixed opcodes 0x30 to 0x37.
pub fn swap<M: MemoryBus>(cpu: &mut Cpu<M>, opcode: u8) -> (cycles: u8)
    requires
        0x30 <= opcode <= 0x37,
    ensures
        ({
            let fx = shift_effect(old(cpu).reg, Shift::Swap, opcode, final(cpu).since(*old(cpu)));
            &&& final(cpu).follows(*old(cpu), fx)
            &&& cycles == fx.ops.len() + 2
        }),
        final(cpu).reg.wf(),
{
    shift(cpu, Shift::Swap, opcode)
}

/// SRL x, prefixed opcodes 0x38 to 0x3F.
pub fn srl<M: MemoryBus>(cpu: &mut Cpu<M>, opcode: u8) -> (cycles: u8)
    requires
        0x38 <= opcode <= 0x3F,
    ensures
        ({
            let fx = shift_effect(old(cpu).reg, Shift::Srl, opcode, final(cpu).since(*old(cpu)));
            &&& final(cpu).follows(*old(cpu), fx)
            &&& cycles == fx.ops.len() + 2
        }),
        final(cpu).reg.wf(),
{
    shift(cpu, Shift::Srl, opcode)
}

/// BIT n,x, prefixed opcodes 0x40 to 0x7F: two machine cycles on a
/// register, three on the byte at HL.
pub fn bit<M: MemoryBus>(cpu: &mut Cpu<M>, opcode: u8) -> (cycles: u8)
    requires
        0x40 <= opcode <= 0x7F,
    ensures
        ({
            let fx = bit_effect(old(cpu).reg, opcode, final(cpu).since(*old(cpu)));
            &&& final(cpu).follows(*old(cpu), fx)
            &&& cycles == fx.ops.len() + 2
        }),
        final(cpu).reg.wf(),
{
    let n = (opcode / 8) % 8;
    let c = cpu.reg.get_flag(CpuFlag::C);
    match decode_reg(opcode % 8) {
        Some(x) => {
            let v = cpu.reg.get8(x);
            cpu.reg.set_flags(v & (1u8 << n) == 0, false, true, c);
            proof {
                lemma_emitted(old(cpu).mmu.trace(), seq![], cpu.mmu.trace());
            }
            2
        },
        None => {
            let addr = cpu.reg.hl();
            let v = cpu.mmu.read(addr);
            cpu.reg.set_flags(v & (1u8 << n) == 0, false, true, c);
            proof {
                lemma_emitted(
                    old(cpu).mmu.trace(),
                    seq![BusEvent::Read { addr, val: v }],
                    cpu.mmu.trace(),
                );
            }
            3
        },
    }
}

/// RES n,x, prefixed opcodes 0x80 to 0xBF: two machine cycles on a
/// register, four on the byte at HL.
pub fn res<M: MemoryBus>(cpu: &mut Cpu<M>, opcode: u8) -> (cycles: u8)
    requires
        0x80 <= opcode <= 0xBF,
    ensures
        ({
            let fx = res_effect(old(cpu).reg, opcode, final(cpu).since(*old(cpu)));
            &&& final(cpu).follows(*old(cpu), fx)
            &&& cycles == fx.ops.len() + 2
        }),
        old(cpu).reg.wf() ==> final(cpu).reg.wf(),
{
    let n = (opcode / 8) % 8;
    match decode_reg(opcode % 8) {
        Some(x) => {
            let v = cpu.reg.get8(x);
            cpu.reg.set8(x, v & !(1u8 << n));
            proof {
                lemma_emitted(old(cpu).mmu.trace(), seq![], cpu.mmu.trace());
            }
            2
        },
        None => {
            let addr = cpu.reg.hl();
            let v = cpu.mmu.read(addr);
            cpu.mmu.write(addr, v & !(1u8 << n));
            proof {
                lemma_emitted(
                    old(cpu).mmu.trace(),
                    seq![
                        BusEvent::Read { addr, val: v },
                        BusEvent::Write { addr, val: bit_cleared(n, v) },
                    ],
                    cpu.mmu.trace(),
                );
            }
            4
        },
    }
}

/// SET n,x, prefixed opcodes 0xC0 to 0xFF: two machine cycles on a
/// register, four on the byte at HL.
pub fn set<M: MemoryBus>(cpu: &mut Cpu<M>, opcode: u8) -> (cycles: u8)
    requires
        0xC0 <= opcode,
    ensures
        ({
            let fx = set_effect(old(cpu).reg, opcode, final(cpu).since(*old(cpu)));
            &&& final(cpu).follows(*old(cpu), fx)
            &&& cycles == fx.ops.len() + 2
        }),
        old(cpu).reg.wf() ==> final(cpu).reg.wf(),
{
    let n = (opcode / 8) % 8;
    match decode_reg(opcode % 8) {
        Some(x) => {
            let v = cpu.reg.get8(x);
            cpu.reg.set8(x, v | (1u8 << n));
            proof {
                lemma_emitted(old(cpu).mmu.trace(), seq![], cpu.mmu.trace());
            }
            2
        },
        None => {
            let addr = cpu.reg.hl();
            let v = cpu.mmu.read(addr);
            cpu.mmu.write(addr, v | (1u8 << n));
            proof {
                lemma_emitted(
                    old(cpu).mmu.trace(),
                    seq![
                        BusEvent::Read { addr, val: v },
                        BusEvent::Write { addr, val: bit_raised(n, v) },
                    ],
                    cpu.mmu.trace(),
                );
            }
            4
        },
    }
}

/// The instructions of the prefixed page cause machine cycles only, after
/// their fetch two at most.
pub proof fn lemma_shift_events(r: Registers, op: Shift, opcode: u8, e: Seq<BusEvent>)
    ensures
        instruction_cycles(shift_effect(r, op, opcode, e).ops),
        instruction_cycles(bit_effect(r, opcode, e).ops),
        instruction_cycles(res_effect(r, opcode, e).ops),
        instruction_cycles(set_effect(r, opcode, e).ops),
        shift_effect(r, op, opcode, e).ops.len() <= 2,
        bit_effect(r, opcode, e).ops.len() <= 2,
        res_effect(r, opcode, e).ops.len() <= 2,
        set_effect(r, opcode, e).ops.len() <= 2,
{
}

/// The short rotates on A clear Z, N and H, whatever A becomes.
pub proof fn lemma_short_rotate_clears_zero(r: Registers, op: Shift)
    ensures
        !rotated_a(r, op).flag(CpuFlag::Z),
        !rotated_a(r, op).flag(CpuFlag::N),
        !rotated_a(r, op).flag(CpuFlag::H),
        rotated_a(r, op).flag(CpuFlag::C) == shifted_out(op, r.a),
{
    lemma_flag_bits_all();
}

/// A prefixed rotate, shift or swap sets Z exactly when its result is
/// zero: the new value of the register, or the byte written back at HL.
pub proof fn lemma_shift_zero_follows_result(r: Registers, op: Shift, opcode: u8, e: Seq<BusEvent>)
    ensures
        ({
            let fx = shift_effect(r, op, opcode, e);
            match reg_at(opcode % 8) {
                Some(x) => fx.reg.flag(CpuFlag::Z) == (fx.reg.spec_get8(x) == 0),
                None => fx.reg.flag(CpuFlag::Z) == (fx.ops[1].value() == 0),
            }
        }),
        !shift_effect(r, op, opcode, e).reg.flag(CpuFlag::N),
        !shift_effect(r, op, opcode, e).reg.flag(CpuFlag::H),
{
    lemma_flag_bits_all();
}

/// BIT sets Z exactly when the tested bit is clear, and keeps C; RES and
/// SET leave F alone.
pub proof fn lemma_bit_ops_flags(r: Registers, opcode: u8, e: Seq<BusEvent>, v: u8, n: u8)
    ensures
        bit_flags(r, n, v).flag(CpuFlag::Z) == (v & (1u8 << n) == 0),
        bit_flags(r, n, v).flag(CpuFlag::H),
        !bit_flags(r, n, v).flag(CpuFlag::N),
        bit_flags(r, n, v).flag(CpuFlag::C) == r.flag(CpuFlag::C),
        res_effect(r, opcode, e).reg.f == r.f,
        set_effect(r, opcode, e).reg.f == r.f,
{
    lemma_flag_bits_all();
}

} // verus!
