//! The stack: PUSH and POP, and the two-byte transfers that calls, returns
//! and interrupts share with them.

use vstd::prelude::*;
use crate::alu::wrap16;
use crate::cpu::{lemma_emitted, Cpu, Effect};
use crate::memory::{instruction_cycles, lemma_replay_push, BusEvent, MemoryBus, MmuView};
use crate::registers::{
    high_byte, join, lemma_word_bytes, low_byte, lower, upper, word, Registers,
};

verus! {

/// The register pairs that PUSH and POP can name.
#[derive(Clone, Copy, Debug, PartialEq, Eq, Structural)]
pub enum StackPair {
    BC,
    DE,
    HL,
    AF,
}

/// The pair that the two-bit field `idx` names.
pub open spec fn stack_pair_at(idx: u8) -> StackPair {
    if idx == 0 {
        StackPair::BC
    } else if idx == 1 {
        StackPair::DE
    } else if idx == 2 {
        StackPair::HL
    } else {
        StackPair::AF
    }
}

/// Decodes the two-bit field that names a pair in PUSH and POP.
#[verifier::when_used_as_spec(stack_pair_at)]
pub fn decode_stack_pair(idx: u8) -> (p: StackPair)
    ensures
        p == stack_pair_at(idx),
{
    if idx == 0 {
        StackPair::BC
    } else if idx == 1 {
        StackPair::DE
    } else if idx == 2 {
        StackPair::HL
    } else {
        StackPair::AF
    }
}

/// The value of the pair `p`.
pub open spec fn pair_value(r: Registers, p: StackPair) -> u16 {
    match p {
        StackPair::BC => r.spec_bc(),
        StackPair::DE => r.spec_de(),
        StackPair::HL => r.spec_hl(),
        StackPair::AF => r.spec_af(),
    }
}

/// The registers with `val` in the pair `p`; the low nibble of F is zero
/// whatever `val` holds.
pub open spec fn with_pair(r: Registers, p: StackPair, val: u16) -> Registers {
    match p {
        StackPair::BC => r.with_bc(val),
        StackPair::DE => r.with_de(val),
        StackPair::HL => r.with_hl(val),
        StackPair::AF => r.with_af(val),
    }
}

/// The opcodes of PUSH: 0xC5, 0xD5, 0xE5 and 0xF5.
pub open spec fn is_push(opcode: u8) -> bool {
    opcode == 0xC5 || opcode == 0xD5 || opcode == 0xE5 || opcode == 0xF5
}

/// The opcodes of POP: 0xC1, 0xD1, 0xE1 and 0xF1.
pub open spec fn is_pop(opcode: u8) -> bool {
    opcode == 0xC1 || opcode == 0xD1 || opcode == 0xE1 || opcode == 0xF1
}

/// Putting `w` on the stack: the high byte goes to SP-1, then the low byte
/// to SP-2, and SP ends two lower.
pub open spec fn pushed_word(r: Registers, w: u16) -> Effect {
    Effect {
        reg: Registers { sp: wrap16(r.sp - 2), ..r },
        ops: seq![
            BusEvent::Write { addr: wrap16(r.sp - 1), val: high_byte(w) },
            BusEvent::Write { addr: wrap16(r.sp - 2), val: low_byte(w) },
        ],
    }
}

/// The word that a pop takes from the stack when the bus answers as in
/// `e`: the low byte from SP, the high byte from SP+1.
pub open spec fn popped_value(e: Seq<BusEvent>) -> u16 {
    word(e[1].value(), e[0].value())
}

/// Taking a word from the stack: two reads, and SP ends two higher.
pub open spec fn popped_word(r: Registers, e: Seq<BusEvent>) -> Effect {
    Effect {
        reg: Registers { sp: wrap16(r.sp + 2), ..r },
        ops: seq![
            BusEvent::Read { addr: r.sp, val: e[0].value() },
            BusEvent::Read { addr: wrap16(r.sp + 1), val: e[1].value() },
        ],
    }
}

/// PUSH rr: one internal cycle, then the pair goes on the stack.
pub open spec fn push_effect(r: Registers, opcode: u8) -> Effect {
    let w = pushed_word(r, pair_value(r, stack_pair_at((opcode / 16) % 4)));
    Effect { reg: w.reg, ops: seq![BusEvent::Internal] + w.ops }
}

/// POP rr: the pair comes off the stack.
pub open spec fn pop_effect(r: Registers, opcode: u8, e: Seq<BusEvent>) -> Effect {
    let w = popped_word(r, e);
    Effect { reg: with_pair(w.reg, stack_pair_at((opcode / 16) % 4), popped_value(e)), ops: w.ops }
}

/// Writes `w` to the stack, high byte first. Two machine cycles.
pub fn push_word<M: MemoryBus>(cpu: &mut Cpu<M>, w: u16)
    ensures
        final(cpu).follows(*old(cpu), pushed_word(old(cpu).reg, w)),
{
    cpu.reg.sp = cpu.reg.sp.wrapping_sub(1);
    cpu.mmu.write(cpu.reg.sp, upper(w));
    cpu.reg.sp = cpu.reg.sp.wrapping_sub(1);
    cpu.mmu.write(cpu.reg.sp, lower(w));
    proof {
        lemma_emitted(old(cpu).mmu.trace(), pushed_word(old(cpu).reg, w).ops, cpu.mmu.trace());
    }
}

/// Reads a word from the stack, low byte first. Two machine cycles.
pub fn pop_word<M: MemoryBus>(cpu: &mut Cpu<M>) -> (w: u16)
    ensures
        final(cpu).follows(
            *old(cpu),
            Effect {
                reg: Registers { sp: wrap16(old(cpu).reg.sp + 2), ..old(cpu).reg },
                ops: seq![
                    BusEvent::Read { addr: old(cpu).reg.sp, val: low_byte(w) },
                    BusEvent::Read { addr: wrap16(old(cpu).reg.sp + 1), val: high_byte(w) },
                ],
            },
        ),
{
    let lo = cpu.mmu.read(cpu.reg.sp);
    cpu.reg.sp = cpu.reg.sp.wrapping_add(1);
    let hi = cpu.mmu.read(cpu.reg.sp);
    cpu.reg.sp = cpu.reg.sp.wrapping_add(1);
    let w = join(hi, lo);
    proof {
        lemma_emitted(
            old(cpu).mmu.trace(),
            seq![
                BusEvent::Read { addr: old(cpu).reg.sp, val: low_byte(w) },
                BusEvent::Read { addr: wrap16(old(cpu).reg.sp + 1), val: high_byte(w) },
            ],
            cpu.mmu.trace(),
        );
    }
    w
}

/// POP rr: three machine cycles. POP AF leaves the low nibble of F zero.
pub fn pop<M: MemoryBus>(cpu: &mut Cpu<M>, opcode: u8) -> (cycles: u8)
    requires
        is_pop(opcode),
    ensures
        ({
            let fx = pop_effect(old(cpu).reg, opcode, final(cpu).since(*old(cpu)));
            &&& final(cpu).follows(*old(cpu), fx)
            &&& cycles == fx.ops.len() + 1
        }),
        old(cpu).reg.wf() ==> final(cpu).reg.wf(),
{
    let w = pop_word(cpu);
    match decode_stack_pair((opcode / 16) % 4) {
        StackPair::BC => cpu.reg.set_bc(w),
        StackPair::DE => cpu.reg.set_de(w),
        StackPair::HL => cpu.reg.set_hl(w),
        StackPair::AF => cpu.reg.set_af(w),
    }
    proof {
        lemma_word_bytes(w, 0, 0);
        lemma_emitted(
            old(cpu).mmu.trace(),
            seq![
                BusEvent::Read { addr: old(cpu).reg.sp, val: low_byte(w) },
                BusEvent::Read { addr: wrap16(old(cpu).reg.sp + 1), val: high_byte(w) },
            ],
            cpu.mmu.trace(),
        );
    }
    3
}

/// PUSH rr: four machine cycles.
pub fn push<M: MemoryBus>(cpu: &mut Cpu<M>, opcode: u8) -> (cycles: u8)
    requires
        is_push(opcode),
    ensures
        ({
            let fx = push_effect(old(cpu).reg, opcode);
            &&& final(cpu).follows(*old(cpu), fx)
            &&& cycles == fx.ops.len() + 1
        }),
        old(cpu).reg.wf() ==> final(cpu).reg.wf(),
{
    let w = match decode_stack_pair((opcode / 16) % 4) {
        StackPair::BC => cpu.reg.bc(),
        StackPair::DE => cpu.reg.de(),
        StackPair::HL => cpu.reg.hl(),
        StackPair::AF => cpu.reg.af(),
    };
    cpu.mmu.idle();
    push_word(cpu, w);
    proof {
        lemma_emitted(
            old(cpu).mmu.trace(),
            push_effect(old(cpu).reg, opcode).ops,
            cpu.mmu.trace(),
        );
    }
    4
}

/// PUSH and POP cause machine cycles only, three at most.
pub proof fn lemma_stack_events(r: Registers, opcode: u8, e: Seq<BusEvent>)
    ensures
        instruction_cycles(push_effect(r, opcode).ops),
        instruction_cycles(pop_effect(r, opcode, e).ops),
{
}

/// PUSH rr and then POP rr into the same pair give the registers and SP
/// back, as long as the two reads of the POP return what the PUSH wrote:
/// the high byte of the pair at SP-1 and its low byte at SP-2.
pub proof fn lemma_push_pop_round_trip(r: Registers, push_opcode: u8)
    requires
        r.wf(),
        is_push(push_opcode),
    ensures
        ({
            let p = stack_pair_at((push_opcode / 16) % 4);
            let pushed = push_effect(r, push_opcode);
            let answers = seq![
                BusEvent::Read { addr: pushed.reg.sp, val: low_byte(pair_value(r, p)) },
                BusEvent::Read { addr: wrap16(pushed.reg.sp + 1), val: high_byte(pair_value(r, p)) },
            ];
            let popped = pop_effect(pushed.reg, (push_opcode - 4) as u8, answers);
            &&& is_pop((push_opcode - 4) as u8)
            &&& pushed.ops == seq![
                BusEvent::Internal,
                BusEvent::Write { addr: wrap16(r.sp - 1), val: high_byte(pair_value(r, p)) },
                BusEvent::Write { addr: wrap16(r.sp - 2), val: low_byte(pair_value(r, p)) },
            ]
            &&& pushed.reg.sp == wrap16(r.sp - 2)
            &&& popped.ops == answers
            &&& popped.reg == r
        }),
{
    let p = stack_pair_at((push_opcode / 16) % 4);
    let pushed = push_effect(r, push_opcode);
    assert(pushed.ops =~= seq![
        BusEvent::Internal,
        BusEvent::Write { addr: wrap16(r.sp - 1), val: high_byte(pair_value(r, p)) },
        BusEvent::Write { addr: wrap16(r.sp - 2), val: low_byte(pair_value(r, p)) },
    ]);
    let f = r.f;
    assert(f & 0x0F == 0 ==> f & 0xF0 == f) by (bit_vector);
    lemma_word_bytes(pair_value(r, p), 0, 0);
    lemma_word_bytes(0, r.a, r.f);
    lemma_word_bytes(0, r.b, r.c);
    lemma_word_bytes(0, r.d, r.e);
    lemma_word_bytes(0, r.h, r.l);
}

/// On the memory map, with the stack in RAM: after PUSH rr the byte at SP-1
/// is the high byte of the pair and the byte at SP-2 its low byte, the POP
/// rr that follows reads just these, and the registers and SP are then as
/// they were before the PUSH.
pub proof fn lemma_push_pop_on_ram(m: MmuView, r: Registers, push_opcode: u8)
    requires
        m.wf(),
        r.wf(),
        is_push(push_opcode),
        MmuView::is_ram(wrap16(r.sp - 1)),
        MmuView::is_ram(wrap16(r.sp - 2)),
    ensures
        ({
            let p = stack_pair_at((push_opcode / 16) % 4);
            let pushed = push_effect(r, push_opcode);
            let stored = m.replay(pushed.ops);
            let answers = seq![
                BusEvent::Read { addr: pushed.reg.sp, val: stored.read(pushed.reg.sp) },
                BusEvent::Read {
                    addr: wrap16(pushed.reg.sp + 1),
                    val: stored.read(wrap16(pushed.reg.sp + 1)),
                },
            ];
            let popped = pop_effect(pushed.reg, (push_opcode - 4) as u8, answers);
            &&& m.answered(pushed.ops)
            &&& stored.read(wrap16(r.sp - 1)) == high_byte(pair_value(r, p))
            &&& stored.read(wrap16(r.sp - 2)) == low_byte(pair_value(r, p))
            &&& popped.ops == answers
            &&& stored.answered(popped.ops)
            &&& stored.replay(popped.ops) == stored
            &&& popped.reg == r
        }),
{
    let p = stack_pair_at((push_opcode / 16) % 4);
    let pushed = push_effect(r, push_opcode);
    let high = BusEvent::Write { addr: wrap16(r.sp - 1), val: high_byte(pair_value(r, p)) };
    let low = BusEvent::Write { addr: wrap16(r.sp - 2), val: low_byte(pair_value(r, p)) };
    let none = Seq::<BusEvent>::empty();
    assert(pushed.ops =~= none.push(BusEvent::Internal).push(high).push(low));
    lemma_replay_push(m, none, BusEvent::Internal);
    lemma_replay_push(m, none.push(BusEvent::Internal), high);
    lemma_replay_push(m, none.push(BusEvent::Internal).push(high), low);
    let stored = m.replay(pushed.ops);
    assert(stored == m.write(wrap16(r.sp - 1), high.value()).write(wrap16(r.sp - 2), low.value()));
    let first = BusEvent::Read { addr: pushed.reg.sp, val: stored.read(pushed.reg.sp) };
    let second = BusEvent::Read {
        addr: wrap16(pushed.reg.sp + 1),
        val: stored.read(wrap16(pushed.reg.sp + 1)),
    };
    assert(seq![first, second] =~= none.push(first).push(second));
    lemma_replay_push(stored, none, first);
    lemma_replay_push(stored, none.push(first), second);
    lemma_push_pop_round_trip(r, push_opcode);
}

} // verus!
