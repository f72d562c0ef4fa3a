//! Control flow: relative and absolute jumps, calls, returns and restarts.

use vstd::prelude::*;
use crate::alu::wrap16;
use crate::cpu::{lemma_emitted, Cpu, CpuState, Effect, Outcome};
use crate::memory::{instruction_cycles, BusEvent, MemoryBus};
use crate::registers::{
    displace, displaced, high_byte, lemma_word_bytes, low_byte, word, CpuFlag, Registers,
};
use crate::stack::{pop_word, push_word};

verus! {

/// Whether the condition that bits 3 and 4 of `opcode` name holds: NZ, Z,
/// NC, C in that order.
pub open spec fn condition_met(r: Registers, opcode: u8) -> bool {
    let k = (opcode / 8) % 4;
    if k == 0 {
        !r.flag(CpuFlag::Z)
    } else if k == 1 {
        r.flag(CpuFlag::Z)
    } else if k == 2 {
        !r.flag(CpuFlag::C)
    } else {
        r.flag(CpuFlag::C)
    }
}

/// Tests the condition that bits 3 and 4 of `opcode` name.
#[verifier::when_used_as_spec(condition_met)]
pub fn test_condition(r: Registers, opcode: u8) -> (met: bool)
    ensures
        met == condition_met(r, opcode),
{
    let k = (opcode / 8) % 4;
    if k == 0 {
        !r.get_flag(CpuFlag::Z)
    } else if k == 1 {
        r.get_flag(CpuFlag::Z)
    } else if k == 2 {
        !r.get_flag(CpuFlag::C)
    } else {
        r.get_flag(CpuFlag::C)
    }
}

/// The opcodes of JR: 0x18, and with a condition 0x20, 0x28, 0x30 and 0x38.
pub open spec fn is_jr(opcode: u8) -> bool {
    opcode == 0x18 || opcode == 0x20 || opcode == 0x28 || opcode == 0x30 || opcode == 0x38
}

/// The opcodes of JP: 0xC3, 0xE9 through HL, and with a condition 0xC2,
/// 0xCA, 0xD2 and 0xDA.
pub open spec fn is_jp(opcode: u8) -> bool {
    opcode == 0xC3 || opcode == 0xC2 || opcode == 0xCA || opcode == 0xD2 || opcode == 0xDA || opcode
        == 0xE9
}

/// The opcodes of CALL: 0xCD, and with a condition 0xC4, 0xCC, 0xD4 and 0xDC.
pub open spec fn is_call(opcode: u8) -> bool {
    opcode == 0xCD || opcode == 0xC4 || opcode == 0xCC || opcode == 0xD4 || opcode == 0xDC
}

/// The opcodes of RET: 0xC9, and with a condition 0xC0, 0xC8, 0xD0 and 0xD8.
pub open spec fn is_ret(opcode: u8) -> bool {
    opcode == 0xC9 || opcode == 0xC0 || opcode == 0xC8 || opcode == 0xD0 || opcode == 0xD8
}

/// The opcodes of RST: 0xC7 to 0xFF in steps of 8.
pub open spec fn is_rst(opcode: u8) -> bool {
    opcode >= 0xC7 && opcode % 8 == 7
}

/// A relative jump: the offset is read and PC moves past it; when taken,
/// PC then moves by the signed offset and one internal cycle is spent.
pub open spec fn jr_effect_if(r: Registers, taken: bool, e: Seq<BusEvent>) -> Effect {
    let read = BusEvent::Read { addr: r.pc, val: e[0].value() };
    if taken {
        Effect {
            reg: Registers { pc: displaced(r.pc.wrapping_add(1), e[0].value()), ..r },
            ops: seq![read, BusEvent::Internal],
        }
    } else {
        Effect { reg: Registers { pc: r.pc.wrapping_add(1), ..r }, ops: seq![read] }
    }
}

/// An absolute jump: the target is read, low byte first, and PC moves past
/// it; when taken, PC takes the target and one internal cycle is spent.
pub open spec fn jp_effect_if(r: Registers, taken: bool, e: Seq<BusEvent>) -> Effect {
    let lo = BusEvent::Read { addr: r.pc, val: e[0].value() };
    let hi = BusEvent::Read { addr: r.pc.wrapping_add(1), val: e[1].value() };
    if taken {
        Effect {
            reg: Registers { pc: word(e[1].value(), e[0].value()), ..r },
            ops: seq![lo, hi, BusEvent::Internal],
        }
    } else {
        Effect { reg: Registers { pc: r.pc.wrapping_add(2), ..r }, ops: seq![lo, hi] }
    }
}

/// JR e and JR cc,e.
pub open spec fn jr_effect(r: Registers, opcode: u8, e: Seq<BusEvent>) -> Effect {
    jr_effect_if(r, opcode == 0x18 || condition_met(r, opcode), e)
}

/// JP nn and JP cc,nn; JP HL, which takes HL with no bus event.
pub open spec fn jp_effect(r: Registers, opcode: u8, e: Seq<BusEvent>) -> Effect {
    if opcode == 0xE9 {
        Effect { reg: Registers { pc: r.spec_hl(), ..r }, ops: seq![] }
    } else {
        jp_effect_if(r, opcode == 0xC3 || condition_met(r, opcode), e)
    }
}

/// CALL nn and CALL cc,nn: the target is read; when taken, one internal
/// cycle is spent, the address after the operand goes on the stack, high
/// byte first, and PC takes the target.
pub open spec fn call_effect(r: Registers, opcode: u8, e: Seq<BusEvent>) -> Effect {
    let lo = BusEvent::Read { addr: r.pc, val: e[0].value() };
    let hi = BusEvent::Read { addr: r.pc.wrapping_add(1), val: e[1].value() };
    let back = r.pc.wrapping_add(2);
    if opcode == 0xCD || condition_met(r, opcode) {
        Effect {
            reg: Registers { pc: word(e[1].value(), e[0].value()), sp: wrap16(r.sp - 2), ..r },
            ops: seq![
                lo,
                hi,
                BusEvent::Internal,
                BusEvent::Write { addr: wrap16(r.sp - 1), val: high_byte(back) },
                BusEvent::Write { addr: wrap16(r.sp - 2), val: low_byte(back) },
            ],
        }
    } else {
        Effect { reg: Registers { pc: back, ..r }, ops: seq![lo, hi] }
    }
}

/// RET: PC comes off the stack, then one internal cycle. RET cc: one
/// internal cycle for the test, and when taken the same as RET after it.
pub open spec fn ret_effect(r: Registers, opcode: u8, e: Seq<BusEvent>) -> Effect {
    if opcode == 0xC9 {
        Effect {
            reg: Registers { pc: word(e[1].value(), e[0].value()), sp: wrap16(r.sp + 2), ..r },
            ops: seq![
                BusEvent::Read { addr: r.sp, val: e[0].value() },
                BusEvent::Read { addr: wrap16(r.sp + 1), val: e[1].value() },
                BusEvent::Internal,
            ],
        }
    } else if condition_met(r, opcode) {
        Effect {
            reg: Registers { pc: word(e[2].value(), e[1].value()), sp: wrap16(r.sp + 2), ..r },
            ops: seq![
                BusEvent::Internal,
                BusEvent::Read { addr: r.sp, val: e[1].value() },
                BusEvent::Read { addr: wrap16(r.sp + 1), val: e[2].value() },
                BusEvent::Internal,
            ],
        }
    } else {
        Effect { reg: r, ops: seq![BusEvent::Internal] }
    }
}

/// RST n: one internal cycle, PC goes on the stack, and PC takes the
/// vector, which is `opcode - 0xC7`.
pub open spec fn rst_effect(r: Registers, opcode: u8) -> Effect {
    Effect {
        reg: Registers { pc: (opcode - 0xC7) as u16, sp: wrap16(r.sp - 2), ..r },
        ops: seq![
            BusEvent::Internal,
            BusEvent::Write { addr: wrap16(r.sp - 1), val: high_byte(r.pc) },
            BusEvent::Write { addr: wrap16(r.sp - 2), val: low_byte(r.pc) },
        ],
    }
}

/// A relative jump that is taken when `condition` holds: three machine
/// cycles when taken, two when not.
pub fn jr_conditional<M: MemoryBus>(cpu: &mut Cpu<M>, condition: bool) -> (cycles: u8)
    ensures
        ({
            let fx = jr_effect_if(old(cpu).reg, condition, final(cpu).since(*old(cpu)));
            &&& final(cpu).follows(*old(cpu), fx)
            &&& cycles == fx.ops.len() + 1
        }),
        old(cpu).reg.wf() ==> final(cpu).reg.wf(),
{
    let steps = cpu.read_byte();
    if condition {
        cpu.reg.pc = displace(cpu.reg.pc, steps);
        cpu.mmu.idle();
        proof {
            lemma_emitted(
                old(cpu).mmu.trace(),
                seq![BusEvent::Read { addr: old(cpu).reg.pc, val: steps }, BusEvent::Internal],
                cpu.mmu.trace(),
            );
        }
        3
    } else {
        proof {
            lemma_emitted(
                old(cpu).mmu.trace(),
                seq![BusEvent::Read { addr: old(cpu).reg.pc, val: steps }],
                cpu.mmu.trace(),
            );
        }
        2
    }
}

/// JR e and JR cc,e.
pub fn jr<M: MemoryBus>(cpu: &mut Cpu<M>, opcode: u8) -> (cycles: u8)
    requires
        is_jr(opcode),
    ensures
        ({
            let fx = jr_effect(old(cpu).reg, opcode, final(cpu).since(*old(cpu)));
            &&& final(cpu).follows(*old(cpu), fx)
            &&& cycles == fx.ops.len() + 1
        }),
        old(cpu).reg.wf() ==> final(cpu).reg.wf(),
{
    let cond = opcode == 0x18 || test_condition(cpu.reg, opcode);
    jr_conditional(cpu, cond)
}

/// An absolute jump that is taken when `condition` holds: four machine
/// cycles when taken, three when not.
pub fn jp_conditional<M: MemoryBus>(cpu: &mut Cpu<M>, condition: bool) -> (cycles: u8)
    ensures
        ({
            let fx = jp_effect_if(old(cpu).reg, condition, final(cpu).since(*old(cpu)));
            &&& final(cpu).follows(*old(cpu), fx)
            &&& cycles == fx.ops.len() + 1
        }),
        old(cpu).reg.wf() ==> final(cpu).reg.wf(),
{
    let addr = cpu.read_word();
    let ghost lo = BusEvent::Read { addr: old(cpu).reg.pc, val: low_byte(addr) };
    let ghost hi = BusEvent::Read { addr: old(cpu).reg.pc.wrapping_add(1), val: high_byte(addr) };
    proof {
        lemma_word_bytes(addr, 0, 0);
    }
    if condition {
        cpu.reg.pc = addr;
        cpu.mmu.idle();
        proof {
            lemma_emitted(old(cpu).mmu.trace(), seq![lo, hi, BusEvent::Internal], cpu.mmu.trace());
        }
        4
    } else {
        proof {
            lemma_emitted(old(cpu).mmu.trace(), seq![lo, hi], cpu.mmu.trace());
        }
        3
    }
}

/// JP nn, JP cc,nn and JP HL, which takes one machine cycle.
pub fn jp<M: MemoryBus>(cpu: &mut Cpu<M>, opcode: u8) -> (cycles: u8)
    requires
        is_jp(opcode),
    ensures
        ({
            let fx = jp_effect(old(cpu).reg, opcode, final(cpu).since(*old(cpu)));
            &&& final(cpu).follows(*old(cpu), fx)
            &&& cycles == fx.ops.len() + 1
        }),
        old(cpu).reg.wf() ==> final(cpu).reg.wf(),
{
    if opcode == 0xE9 {
        cpu.reg.pc = cpu.reg.hl();
        proof {
            lemma_emitted(old(cpu).mmu.trace(), seq![], cpu.mmu.trace());
        }
        1
    } else {
        let cond = opcode == 0xC3 || test_condition(cpu.reg, opcode);
        jp_conditional(cpu, cond)
    }
}

/// CALL nn and CALL cc,nn: six machine cycles when taken, three when not.
pub fn call<M: MemoryBus>(cpu: &mut Cpu<M>, opcode: u8) -> (cycles: u8)
    requires
        is_call(opcode),
    ensures
        ({
            let fx = call_effect(old(cpu).reg, opcode, final(cpu).since(*old(cpu)));
            &&& final(cpu).follows(*old(cpu), fx)
            &&& cycles == fx.ops.len() + 1
        }),
        old(cpu).reg.wf() ==> final(cpu).reg.wf(),
{
    let cond = opcode == 0xCD || test_condition(cpu.reg, opcode);
    let addr = cpu.read_word();
    let ghost lo = BusEvent::Read { addr: old(cpu).reg.pc, val: low_byte(addr) };
    let ghost hi = BusEvent::Read { addr: old(cpu).reg.pc.wrapping_add(1), val: high_byte(addr) };
    proof {
        lemma_word_bytes(addr, 0, 0);
    }
    if cond {
        cpu.mmu.idle();
        let back = cpu.reg.pc;
        push_word(cpu, back);
        cpu.reg.pc = addr;
        proof {
            lemma_emitted(
                old(cpu).mmu.trace(),
                seq![
                    lo,
                    hi,
                    BusEvent::Internal,
                    BusEvent::Write { addr: wrap16(old(cpu).reg.sp - 1), val: high_byte(back) },
                    BusEvent::Write { addr: wrap16(old(cpu).reg.sp - 2), val: low_byte(back) },
                ],
                cpu.mmu.trace(),
            );
        }
        6
    } else {
        proof {
            lemma_emitted(old(cpu).mmu.trace(), seq![lo, hi], cpu.mmu.trace());
        }
        3
    }
}

/// RET in four machine cycles; RET cc in five when taken, two when not.
pub fn ret<M: MemoryBus>(cpu: &mut Cpu<M>, opcode: u8) -> (cycles: u8)
    requires
        is_ret(opcode),
    ensures
        ({
            let fx = ret_effect(old(cpu).reg, opcode, final(cpu).since(*old(cpu)));
            &&& final(cpu).follows(*old(cpu), fx)
            &&& cycles == fx.ops.len() + 1
        }),
        old(cpu).reg.wf() ==> final(cpu).reg.wf(),
{
    if opcode == 0xC9 {
        let addr = cpu.pop_return();
        proof {
            lemma_word_bytes(addr, 0, 0);
            lemma_emitted(
                old(cpu).mmu.trace(),
                seq![
                    BusEvent::Read { addr: old(cpu).reg.sp, val: low_byte(addr) },
                    BusEvent::Read { addr: wrap16(old(cpu).reg.sp + 1), val: high_byte(addr) },
                    BusEvent::Internal,
                ],
                cpu.mmu.trace(),
            );
        }
        4
    } else {
        let cond = test_condition(cpu.reg, opcode);
        cpu.mmu.idle();
        if cond {
            let addr = cpu.pop_return();
            proof {
                lemma_word_bytes(addr, 0, 0);
                lemma_emitted(
                    old(cpu).mmu.trace(),
                    seq![
                        BusEvent::Internal,
                        BusEvent::Read { addr: old(cpu).reg.sp, val: low_byte(addr) },
                        BusEvent::Read { addr: wrap16(old(cpu).reg.sp + 1), val: high_byte(addr) },
                        BusEvent::Internal,
                    ],
                    cpu.mmu.trace(),
                );
            }
            5
        } else {
            proof {
                lemma_emitted(old(cpu).mmu.trace(), seq![BusEvent::Internal], cpu.mmu.trace());
            }
            2
        }
    }
}

/// RETI: what RET does, and the interrupt master enable is set at once.
/// Four machine cycles.
pub fn reti<M: MemoryBus>(cpu: &mut Cpu<M>) -> (cycles: u8)
    ensures
        ({
            let fx = ret_effect(old(cpu).reg, 0xC9, final(cpu).since(*old(cpu)));
            &&& final(cpu).arrives(
                *old(cpu),
                Outcome { state: CpuState { reg: fx.reg, ime: true, ..old(cpu)@ }, ops: fx.ops },
            )
            &&& cycles == fx.ops.len() + 1
        }),
        old(cpu).reg.wf() ==> final(cpu).reg.wf(),
{
    let cycles = ret(cpu, 0xC9);
    cpu.ime = true;
    cycles
}

/// RST n: four machine cycles.
pub fn rst<M: MemoryBus>(cpu: &mut Cpu<M>, opcode: u8) -> (cycles: u8)
    requires
        is_rst(opcode),
    ensures
        ({
            let fx = rst_effect(old(cpu).reg, opcode);
            &&& final(cpu).follows(*old(cpu), fx)
            &&& cycles == fx.ops.len() + 1
        }),
        old(cpu).reg.wf() ==> final(cpu).reg.wf(),
{
    cpu.mmu.idle();
    let back = cpu.reg.pc;
    push_word(cpu, back);
    cpu.reg.pc = (opcode - 0xC7) as u16;
    proof {
        lemma_emitted(old(cpu).mmu.trace(), rst_effect(old(cpu).reg, opcode).ops, cpu.mmu.trace());
    }
    4
}

/// Jumps, calls, returns and restarts cause machine cycles only, five at
/// most.
pub proof fn lemma_jump_events(r: Registers, opcode: u8, e: Seq<BusEvent>)
    ensures
        instruction_cycles(jr_effect(r, opcode, e).ops),
        instruction_cycles(jp_effect(r, opcode, e).ops),
        instruction_cycles(call_effect(r, opcode, e).ops),
        instruction_cycles(ret_effect(r, opcode, e).ops),
        instruction_cycles(rst_effect(r, opcode).ops),
{
}

impl<M: MemoryBus> Cpu<M> {
    /// Takes PC from the stack and spends one internal cycle.
    fn pop_return(&mut self) -> (addr: u16)
        ensures
            final(self).follows(
                *old(self),
                Effect {
                    reg: Registers { pc: addr, sp: wrap16(old(self).reg.sp + 2), ..old(self).reg },
                    ops: seq![
                        BusEvent::Read { addr: old(self).reg.sp, val: low_byte(addr) },
                        BusEvent::Read {
                            addr: wrap16(old(self).reg.sp + 1),
                            val: high_byte(addr),
                        },
                        BusEvent::Internal,
                    ],
                },
            ),
    {
        let addr = pop_word(self);
        self.reg.pc = addr;
        self.mmu.idle();
        proof {
            lemma_emitted(
                old(self).mmu.trace(),
                seq![
                    BusEvent::Read { addr: old(self).reg.sp, val: low_byte(addr) },
                    BusEvent::Read { addr: wrap16(old(self).reg.sp + 1), val: high_byte(addr) },
                    BusEvent::Internal,
                ],
                self.mmu.trace(),
            );
        }
        addr
    }
}

} // verus!
