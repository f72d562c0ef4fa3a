//! The instruction engine.

use vstd::prelude::*;
use crate::alu::{
    adc, adc_effect, add_effect, and, and_effect, cp, cp_effect, decr, decr_effect, incr,
    incr_effect, is_adc, is_add, is_and, is_cp, is_decr, is_incr, is_or, is_sbc, is_sub, is_xor, or,
    or_effect, sbc, sbc_effect, sub_effect, wrap16, wrap8, xor, xor_effect,
};
use crate::jumps::{
    call, call_effect, is_call, is_jp, is_jr, is_ret, is_rst, jp, jp_effect, jr, jr_effect, ret,
    ret_effect, reti, rst, rst_effect,
};
use crate::ld::{
    is_ld_cst16_to_reg, is_ld_cst_to_reg, is_ld_mem_to_reg, is_ld_reg_to_mem, is_ld_reg_to_reg,
    ld_cst16_to_reg, ld_cst16_to_reg_effect, ld_cst_to_mem, ld_cst_to_mem_effect, ld_cst_to_reg,
    ld_cst_to_reg_effect, ld_mem_to_reg, ld_mem_to_reg_effect, ld_reg_to_mem,
    ld_reg_to_mem_effect, ld_reg_to_reg, ld_reg_to_reg_effect,
};
use crate::alu::lemma_alu_events;
use crate::jumps::lemma_jump_events;
use crate::ld::lemma_ld_events;
use crate::memory::{all_cycles, emitted, instruction_cycles, Bus, BusEvent, MemoryBus};
use crate::shifts::lemma_shift_events;
use crate::stack::lemma_stack_events;
use crate::registers::{high_byte, join, low_byte, CpuFlag, Registers};
use crate::shifts::{
    bit, bit_effect, res, res_effect, rl, rla, rlc, rlca, rotated_a, rr, rra, rrc, rrca,
    set_effect, shift_at, shift_effect, sla, sra, srl, swap, Shift,
};
use crate::stack::{is_pop, is_push, pop, pop_effect, push, push_effect, push_word};

verus! {

/// The processor with the bus it drives.
///
/// The opcode of the next instruction is always fetched ahead, in the last
/// machine cycle of the instruction before it, and waits in `prefetched`.
/// `reg.pc` addresses the byte after the last one fetched: between two
/// steps the instruction that runs next lies at `reg.pc - 1`. The one
/// exception is the step after a HALT that met a pending interrupt with
/// the master enable off: its fetch leaves PC where it was.
///
/// A step needs the low nibble of F to be zero, and leaves it so.
pub struct Cpu<M: MemoryBus> {
    /// The register file.
    pub reg: Registers,
    /// Set by HALT; cleared when an enabled interrupt is pending.
    pub halted: bool,
    /// Set by STOP.
    pub stopped: bool,
    /// The interrupt master enable.
    pub ime: bool,
    /// An EI ran in the last step, so the step now beginning ends with the
    /// master enable set.
    pub ime_scheduled: bool,
    /// The opcode that the next step executes.
    pub prefetched: u8,
    /// The port to the device that holds memory and peripherals.
    pub mmu: Bus<M>,
}

/// The processor's own state, without the bus.
pub struct CpuState {
    pub reg: Registers,
    pub halted: bool,
    pub stopped: bool,
    pub ime: bool,
    pub ime_scheduled: bool,
    pub prefetched: u8,
}

/// What an instruction does to the registers and the bus: the registers it
/// leaves and the bus events it causes, in order.
pub struct Effect {
    pub reg: Registers,
    pub ops: Seq<BusEvent>,
}

/// What a step of the processor comes to, bus aside: its state afterwards
/// and the bus events it causes, in order.
pub struct Outcome {
    pub state: CpuState,
    pub ops: Seq<BusEvent>,
}

/// The registers as a conformance log shows them between two steps.
#[derive(Clone, Copy, Debug, PartialEq, Eq, Structural)]
pub struct DoctorState {
    pub a: u8,
    pub f: u8,
    pub b: u8,
    pub c: u8,
    pub d: u8,
    pub e: u8,
    pub h: u8,
    pub l: u8,
    pub sp: u16,
    /// The address of the instruction that runs next: one below `reg.pc`,
    /// which has moved past its opcode already.
    pub pc: u16,
    /// The byte at `pc`: the opcode that was fetched ahead.
    pub next: u8,
}

/// What a conformance log shows of the state `s`.
pub open spec fn doctor_state(s: CpuState) -> DoctorState {
    DoctorState {
        a: s.reg.a,
        f: s.reg.f,
        b: s.reg.b,
        c: s.reg.c,
        d: s.reg.d,
        e: s.reg.e,
        h: s.reg.h,
        l: s.reg.l,
        sp: s.reg.sp,
        pc: wrap16(s.reg.pc - 1),
        next: s.prefetched,
    }
}

/// Why a step could not be taken.
#[derive(Clone, Copy, Debug, PartialEq, Eq, Structural)]
pub enum CpuError {
    /// The opcode to execute is one of the eleven that the processor does
    /// not define.
    UndefinedOpcode(u8),
}

/// The opcodes that the processor does not define.
pub open spec fn is_illegal(opcode: u8) -> bool {
    opcode == 0xD3 || opcode == 0xDB || opcode == 0xDD || opcode == 0xE3 || opcode == 0xE4 || opcode
        == 0xEB || opcode == 0xEC || opcode == 0xED || opcode == 0xF4 || opcode == 0xFC || opcode
        == 0xFD
}

/// Tells whether the processor does not define `opcode`.
#[verifier::when_used_as_spec(is_illegal)]
pub fn illegal(opcode: u8) -> (r: bool)
    ensures
        r == is_illegal(opcode),
{
    opcode == 0xD3 || opcode == 0xDB || opcode == 0xDD || opcode == 0xE3 || opcode == 0xE4 || opcode
        == 0xEB || opcode == 0xEC || opcode == 0xED || opcode == 0xF4 || opcode == 0xFC || opcode
        == 0xFD
}

/// DAA: A is corrected to packed decimal after an addition (N clear) or a
/// subtraction (N set). Z follows A, H is cleared, N stays.
pub open spec fn decimal_adjusted(r: Registers) -> Registers {
    let n = r.flag(CpuFlag::N);
    let h = r.flag(CpuFlag::H);
    let c = r.flag(CpuFlag::C);
    if !n {
        let high = c || r.a > 0x99;
        let low = h || (r.a & 0x0F) > 0x09;
        let a = wrap8(r.a + (if high { 0x60int } else { 0int }) + (if low { 0x06int } else { 0int }));
        Registers { a, ..r }.with_flags(a == 0, n, false, high)
    } else {
        let a = wrap8(r.a - (if c { 0x60int } else { 0int }) - (if h { 0x06int } else { 0int }));
        Registers { a, ..r }.with_flags(a == 0, n, false, c)
    }
}

/// CPL: A is inverted, N and H are set, Z and C stay.
pub open spec fn complemented(r: Registers) -> Registers {
    Registers { a: !r.a, ..r }.with_flags(r.flag(CpuFlag::Z), true, true, r.flag(CpuFlag::C))
}

/// SCF: C is set, N and H are cleared, Z stays.
pub open spec fn carry_set(r: Registers) -> Registers {
    r.with_flags(r.flag(CpuFlag::Z), false, false, true)
}

/// CCF: C is inverted, N and H are cleared, Z stays.
pub open spec fn carry_flipped(r: Registers) -> Registers {
    r.with_flags(r.flag(CpuFlag::Z), false, false, !r.flag(CpuFlag::C))
}

/// An instruction of the prefixed page: the opcode is read at PC, then the
/// instruction it names runs on what follows in `e`.
pub open spec fn cb_effect(r: Registers, e: Seq<BusEvent>) -> Effect {
    let op = e[0].value();
    let next = Registers { pc: r.pc.wrapping_add(1), ..r };
    let rest = e.skip(1);
    let fx = if op < 0x40 {
        shift_effect(next, shift_at(op / 8), op, rest)
    } else if op < 0x80 {
        bit_effect(next, op, rest)
    } else if op < 0xC0 {
        res_effect(next, op, rest)
    } else {
        set_effect(next, op, rest)
    };
    Effect { reg: fx.reg, ops: seq![BusEvent::Read { addr: r.pc, val: op }] + fx.ops }
}

/// The instruction with effect `fx` on the registers, in state `s`.
pub open spec fn lift(s: CpuState, fx: Effect) -> Outcome {
    Outcome { state: CpuState { reg: fx.reg, ..s }, ops: fx.ops }
}

/// What the opcode in `s.prefetched` does when the bus answers as in `e`:
/// the reference for every defined opcode.
#[verifier::opaque]
pub open spec fn execute_effect(s: CpuState, e: Seq<BusEvent>) -> Outcome {
    let op = s.prefetched;
    let r = s.reg;
    if op == 0x00 {
        Outcome { state: s, ops: seq![] }
    } else if op == 0x10 {
        Outcome { state: CpuState { stopped: true, ..s }, ops: seq![] }
    } else if op == 0x76 {
        Outcome { state: CpuState { halted: true, ..s }, ops: seq![] }
    } else if op == 0xF3 {
        Outcome { state: CpuState { ime: false, ..s }, ops: seq![] }
    } else if op == 0xFB {
        Outcome { state: CpuState { ime_scheduled: true, ..s }, ops: seq![] }
    } else if op == 0xD9 {
        let fx = ret_effect(r, 0xC9, e);
        Outcome { state: CpuState { reg: fx.reg, ime: true, ..s }, ops: fx.ops }
    } else if op == 0x27 {
        lift(s, Effect { reg: decimal_adjusted(r), ops: seq![] })
    } else if op == 0x2F {
        lift(s, Effect { reg: complemented(r), ops: seq![] })
    } else if op == 0x37 {
        lift(s, Effect { reg: carry_set(r), ops: seq![] })
    } else if op == 0x3F {
        lift(s, Effect { reg: carry_flipped(r), ops: seq![] })
    } else if op == 0x07 {
        lift(s, Effect { reg: rotated_a(r, Shift::Rlc), ops: seq![] })
    } else if op == 0x0F {
        lift(s, Effect { reg: rotated_a(r, Shift::Rrc), ops: seq![] })
    } else if op == 0x17 {
        lift(s, Effect { reg: rotated_a(r, Shift::Rl), ops: seq![] })
    } else if op == 0x1F {
        lift(s, Effect { reg: rotated_a(r, Shift::Rr), ops: seq![] })
    } else if op == 0x36 {
        lift(s, ld_cst_to_mem_effect(r, e))
    } else if op == 0xCB {
        lift(s, cb_effect(r, e))
    } else if is_ld_cst_to_reg(op) {
        lift(s, ld_cst_to_reg_effect(r, op, e))
    } else if is_ld_cst16_to_reg(op) {
        lift(s, ld_cst16_to_reg_effect(r, op, e))
    } else if is_ld_reg_to_reg(op) {
        lift(s, ld_reg_to_reg_effect(r, op, e))
    } else if is_ld_mem_to_reg(op) {
        lift(s, ld_mem_to_reg_effect(r, op, e))
    } else if is_ld_reg_to_mem(op) {
        lift(s, ld_reg_to_mem_effect(r, op, e))
    } else if is_incr(op) {
        lift(s, incr_effect(r, op, e))
    } else if is_decr(op) {
        lift(s, decr_effect(r, op, e))
    } else if is_add(op) {
        lift(s, add_effect(r, op, e))
    } else if is_adc(op) {
        lift(s, adc_effect(r, op, e))
    } else if is_sub(op) {
        lift(s, sub_effect(r, op, e))
    } else if is_sbc(op) {
        lift(s, sbc_effect(r, op, e))
    } else if is_and(op) {
        lift(s, and_effect(r, op, e))
    } else if is_xor(op) {
        lift(s, xor_effect(r, op, e))
    } else if is_or(op) {
        lift(s, or_effect(r, op, e))
    } else if is_cp(op) {
        lift(s, cp_effect(r, op, e))
    } else if is_jr(op) {
        lift(s, jr_effect(r, op, e))
    } else if is_jp(op) {
        lift(s, jp_effect(r, op, e))
    } else if is_call(op) {
        lift(s, call_effect(r, op, e))
    } else if is_ret(op) {
        lift(s, ret_effect(r, op, e))
    } else if is_rst(op) {
        lift(s, rst_effect(r, op))
    } else if is_push(op) {
        lift(s, push_effect(r, op))
    } else if is_pop(op) {
        lift(s, pop_effect(r, op, e))
    } else {
        Outcome { state: s, ops: seq![] }
    }
}

/// The line that is served first among those set in `lines`: the lowest.
pub open spec fn line_of(lines: u8) -> u8 {
    if lines & 0x01 != 0 {
        0
    } else if lines & 0x02 != 0 {
        1
    } else if lines & 0x04 != 0 {
        2
    } else if lines & 0x08 != 0 {
        3
    } else {
        4
    }
}

/// Picks the line that is served first among those set in `lines`.
#[verifier::when_used_as_spec(line_of)]
pub fn highest_priority(lines: u8) -> (line: u8)
    ensures
        line == line_of(lines),
        line < 5,
{
    if lines & 0x01 != 0 {
        0
    } else if lines & 0x02 != 0 {
        1
    } else if lines & 0x04 != 0 {
        2
    } else if lines & 0x08 != 0 {
        3
    } else {
        4
    }
}

/// What taking the interrupt on `line` comes to when the fetch at the
/// vector returns `latch`: the request is withdrawn, two internal cycles
/// pass, the address of the opcode that was about to run (one below PC)
/// goes on the stack, a third internal cycle loads the vector, five cycles
/// are reported and the handler's first opcode is fetched. The master
/// enable ends clear, and an enable that was scheduled is dropped.
pub open spec fn interrupt_outcome(s: CpuState, line: u8, latch: u8) -> Outcome {
    let back = wrap16(s.reg.pc - 1);
    let vector = (0x40 + 8 * line) as u16;
    Outcome {
        state: CpuState {
            reg: Registers { pc: (vector + 1) as u16, sp: wrap16(s.reg.sp - 2), ..s.reg },
            halted: false,
            ime: false,
            ime_scheduled: false,
            prefetched: latch,
            ..s
        },
        ops: seq![
            BusEvent::Acknowledge { line },
            BusEvent::Internal,
            BusEvent::Internal,
            BusEvent::Write { addr: wrap16(s.reg.sp - 1), val: high_byte(back) },
            BusEvent::Write { addr: wrap16(s.reg.sp - 2), val: low_byte(back) },
            BusEvent::Internal,
            BusEvent::Tick { cycles: 5 },
            BusEvent::Read { addr: vector, val: latch },
        ],
    }
}

/// What a step comes to in state `s` when the bus answers as in `e`: the
/// outcome, and what the step returns. `e` holds the events of the step
/// itself; the bytes that its reads returned and the lines that its sample
/// showed are taken from there.
///
/// The interrupt lines are sampled first; only the five low lines count,
/// and a pending line ends a halt. With the master enable set and a line
/// pending, the interrupt on the lowest pending line is taken. A processor
/// still halted idles for one cycle. An undefined opcode stops the step
/// before anything else is asked of the bus. Otherwise the instruction
/// runs, its cycle count is reported to the bus, and the next opcode is
/// fetched at PC, which moves past it unless the instruction was a HALT
/// with a line pending. A master enable that the step before scheduled
/// takes effect at the end.
pub open spec fn step_outcome(s: CpuState, e: Seq<BusEvent>) -> (Outcome, Result<u8, CpuError>) {
    let raw = e[0].value();
    let lines = raw & 0x1F;
    let sample = BusEvent::Sample { lines: raw };
    let awake = CpuState { halted: s.halted && lines == 0, ..s };
    if s.ime && lines != 0 {
        let taken = interrupt_outcome(awake, line_of(lines), e[8].value());
        (Outcome { state: taken.state, ops: seq![sample] + taken.ops }, Ok(5u8))
    } else if awake.halted {
        (
            Outcome {
                state: s,
                ops: seq![sample, BusEvent::Internal, BusEvent::Tick { cycles: 1 }],
            },
            Ok(1u8),
        )
    } else if is_illegal(s.prefetched) {
        (Outcome { state: awake, ops: seq![sample] }, Err(CpuError::UndefinedOpcode(s.prefetched)))
    } else {
        let out = execute_effect(
            CpuState { ime_scheduled: false, ..awake },
            e.subrange(1, e.len() - 2),
        );
        let cycles = (out.ops.len() + 1) as u8;
        let latch = e.last().value();
        let pc = out.state.reg.pc;
        let stuck = s.prefetched == 0x76 && lines != 0;
        (
            Outcome {
                state: CpuState {
                    reg: Registers {
                        pc: if stuck {
                            pc
                        } else {
                            pc.wrapping_add(1)
                        },
                        ..out.state.reg
                    },
                    prefetched: latch,
                    ime: out.state.ime || s.ime_scheduled,
                    ..out.state
                },
                ops: seq![sample] + out.ops + seq![
                    BusEvent::Tick { cycles },
                    BusEvent::Read { addr: pc, val: latch },
                ],
            },
            Ok(cycles),
        )
    }
}

/// The events of a step that runs an instruction: the sample, the
/// instruction's own events, the tick and the fetch.
pub proof fn lemma_step_shape(
    before: Seq<BusEvent>,
    sample: BusEvent,
    body: Seq<BusEvent>,
    tick: BusEvent,
    fetch: BusEvent,
    after: Seq<BusEvent>,
)
    requires
        after == (before.push(sample) + body).push(tick).push(fetch),
    ensures
        after == before + (seq![sample] + body + seq![tick, fetch]),
        emitted(before, after) == seq![sample] + body + seq![tick, fetch],
        emitted(before, after)[0] == sample,
        emitted(before, after).last() == fetch,
        emitted(before, after).subrange(1, emitted(before, after).len() - 2) == body,
{
    let all = seq![sample] + body + seq![tick, fetch];
    assert(after =~= before + all);
    assert(emitted(before, after) =~= all);
    assert(all.subrange(1, all.len() - 2) =~= body);
}

/// The number of events in `events` that take a machine cycle.
pub open spec fn machine_cycles(events: Seq<BusEvent>) -> nat
    decreases events.len(),
{
    if events.len() == 0 {
        0
    } else {
        machine_cycles(events.drop_last()) + (if events.last().is_cycle() {
            1nat
        } else {
            0nat
        })
    }
}

/// One more event adds one machine cycle if it takes one.
pub proof fn lemma_machine_cycles_push(events: Seq<BusEvent>, ev: BusEvent)
    ensures
        machine_cycles(events.push(ev)) == machine_cycles(events) + (if ev.is_cycle() {
            1nat
        } else {
            0nat
        }),
{
    assert(events.push(ev).drop_last() =~= events);
}

/// The machine cycles of two stretches of events add up.
pub proof fn lemma_machine_cycles_concat(first: Seq<BusEvent>, second: Seq<BusEvent>)
    ensures
        machine_cycles(first + second) == machine_cycles(first) + machine_cycles(second),
    decreases second.len(),
{
    if second.len() == 0 {
        assert(first + second =~= first);
    } else {
        lemma_machine_cycles_concat(first, second.drop_last());
        assert((first + second).drop_last() =~= first + second.drop_last());
    }
}

/// Where every event takes a machine cycle, there are as many cycles as
/// events.
pub proof fn lemma_machine_cycles_all(events: Seq<BusEvent>)
    requires
        all_cycles(events),
    ensures
        machine_cycles(events) == events.len(),
    decreases events.len(),
{
    if events.len() > 0 {
        lemma_machine_cycles_all(events.drop_last());
    }
}

/// Every event of a defined instruction takes a machine cycle, and there
/// are at most five of them.
pub proof fn lemma_instruction_events(s: CpuState, e: Seq<BusEvent>)
    ensures
        all_cycles(execute_effect(s, e).ops),
        execute_effect(s, e).ops.len() <= 5,
{
    reveal(execute_effect);
    let r = s.reg;
    let op = s.prefetched;
    let out = execute_effect(s, e);
    assert(instruction_cycles(Seq::<BusEvent>::empty()));
    lemma_alu_events(r, op, e);
    lemma_ld_events(r, op, e);
    lemma_stack_events(r, op, e);
    lemma_jump_events(r, op, e);
    lemma_jump_events(r, 0xC9, e);
    lemma_prefixed_events(r, e);
    if op == 0x00 || op == 0x10 || op == 0x76 || op == 0xF3 || op == 0xFB || op == 0x27 || op
        == 0x2F || op == 0x37 || op == 0x3F || op == 0x07 || op == 0x0F || op == 0x17 || op
        == 0x1F {
        assert(out.ops =~= Seq::<BusEvent>::empty());
    }
    assert(instruction_cycles(out.ops));
}

/// An instruction of the prefixed page causes machine cycles only, three
/// at most.
pub proof fn lemma_prefixed_events(r: Registers, e: Seq<BusEvent>)
    ensures
        instruction_cycles(cb_effect(r, e).ops),
{
    let op = e[0].value();
    let next = Registers { pc: r.pc.wrapping_add(1), ..r };
    lemma_shift_events(next, shift_at(op / 8), op, e.skip(1));
}

/// A step that runs an instruction, or idles while halted, returns the
/// number of machine cycles among the events that it caused: the reads,
/// the writes and the internal cycles, the fetch of the next opcode
/// included.
pub proof fn lemma_step_counts_its_cycles(s: CpuState, e: Seq<BusEvent>)
    requires
        !(s.ime && e[0].value() & 0x1F != 0),
    ensures
        ({
            let out = step_outcome(s, e);
            out.1 is Ok ==> out.1->Ok_0 == machine_cycles(out.0.ops)
        }),
{
    let raw = e[0].value();
    let lines = raw & 0x1F;
    let sample = BusEvent::Sample { lines: raw };
    let out = step_outcome(s, e);
    if s.halted && lines == 0 {
        let ops = seq![sample, BusEvent::Internal, BusEvent::Tick { cycles: 1 }];
        lemma_machine_cycles_push(Seq::empty(), sample);
        lemma_machine_cycles_push(seq![sample], BusEvent::Internal);
        lemma_machine_cycles_push(seq![sample, BusEvent::Internal], BusEvent::Tick { cycles: 1 });
        assert(seq![sample] =~= Seq::<BusEvent>::empty().push(sample));
        assert(seq![sample, BusEvent::Internal] =~= seq![sample].push(BusEvent::Internal));
        assert(ops =~= seq![sample, BusEvent::Internal].push(BusEvent::Tick { cycles: 1 }));
    } else if !is_illegal(s.prefetched) {
        let start = CpuState { ime_scheduled: false, halted: false, ..s };
        let body = execute_effect(start, e.subrange(1, e.len() - 2)).ops;
        lemma_instruction_events(start, e.subrange(1, e.len() - 2));
        lemma_machine_cycles_all(body);
        let tick = BusEvent::Tick { cycles: (body.len() + 1) as u8 };
        let fetch = BusEvent::Read {
            addr: execute_effect(start, e.subrange(1, e.len() - 2)).state.reg.pc,
            val: e.last().value(),
        };
        lemma_machine_cycles_push(Seq::empty(), sample);
        assert(seq![sample] =~= Seq::<BusEvent>::empty().push(sample));
        lemma_machine_cycles_concat(seq![sample], body);
        lemma_machine_cycles_push(seq![sample] + body, tick);
        lemma_machine_cycles_push((seq![sample] + body).push(tick), fetch);
        assert(out.0.ops =~= (seq![sample] + body).push(tick).push(fetch));
    }
}

/// A step that takes an interrupt returns five, while six of its events
/// take a machine cycle: three internal cycles, two writes and the fetch
/// at the vector.
pub proof fn lemma_interrupt_step_cycles(s: CpuState, e: Seq<BusEvent>)
    requires
        s.ime && e[0].value() & 0x1F != 0,
    ensures
        step_outcome(s, e).1 == Ok::<u8, CpuError>(5),
        step_outcome(s, e).0.ops.len() == 9,
        machine_cycles(step_outcome(s, e).0.ops) == 6,
{
    let ops = step_outcome(s, e).0.ops;
    assert(ops.len() == 9);
    let p0 = Seq::<BusEvent>::empty();
    let p1 = p0.push(ops[0]);
    let p2 = p1.push(ops[1]);
    let p3 = p2.push(ops[2]);
    let p4 = p3.push(ops[3]);
    let p5 = p4.push(ops[4]);
    let p6 = p5.push(ops[5]);
    let p7 = p6.push(ops[6]);
    let p8 = p7.push(ops[7]);
    let p9 = p8.push(ops[8]);
    assert(ops =~= p9);
    lemma_machine_cycles_push(p0, ops[0]);
    lemma_machine_cycles_push(p1, ops[1]);
    lemma_machine_cycles_push(p2, ops[2]);
    lemma_machine_cycles_push(p3, ops[3]);
    lemma_machine_cycles_push(p4, ops[4]);
    lemma_machine_cycles_push(p5, ops[5]);
    lemma_machine_cycles_push(p6, ops[6]);
    lemma_machine_cycles_push(p7, ops[7]);
    lemma_machine_cycles_push(p8, ops[8]);
}

/// Appending `ops` to a history and asking what was added gives `ops`.
pub proof fn lemma_emitted(before: Seq<BusEvent>, ops: Seq<BusEvent>, after: Seq<BusEvent>)
    requires
        after =~= before + ops,
    ensures
        emitted(before, after) == ops,
        after == before + ops,
{
    assert(emitted(before, after) =~= ops);
}

/// What was added over two stretches is the first stretch, then the second.
pub proof fn lemma_emitted_twice(
    before: Seq<BusEvent>,
    first: Seq<BusEvent>,
    middle: Seq<BusEvent>,
    second: Seq<BusEvent>,
    after: Seq<BusEvent>,
)
    requires
        middle == before + first,
        after == middle + second,
    ensures
        emitted(before, after) == first + second,
        after == before + (first + second),
        emitted(middle, after) == second,
        emitted(before, after).skip(first.len() as int) == second,
        emitted(before, after).take(first.len() as int) == first,
{
    assert(after =~= before + (first + second));
    assert(emitted(before, after) =~= first + second);
    assert(emitted(middle, after) =~= second);
    assert((first + second).skip(first.len() as int) =~= second);
    assert((first + second).take(first.len() as int) =~= first);
}

impl<M: MemoryBus> View for Cpu<M> {
    type V = CpuState;

    open spec fn view(&self) -> CpuState {
        CpuState {
            reg: self.reg,
            halted: self.halted,
            stopped: self.stopped,
            ime: self.ime,
            ime_scheduled: self.ime_scheduled,
            prefetched: self.prefetched,
        }
    }
}

impl<M: MemoryBus> Cpu<M> {
    /// The bus events since the processor was as `before`.
    pub open spec fn since(self, before: Self) -> Seq<BusEvent> {
        emitted(before.mmu.trace(), self.mmu.trace())
    }

    /// `self` is `before` after an instruction with effect `fx`: the events
    /// of `fx` were added to the history, the registers are those of `fx`,
    /// and the rest of the processor is as it was.
    pub open spec fn follows(self, before: Self, fx: Effect) -> bool {
        &&& self.mmu.trace() == before.mmu.trace() + fx.ops
        &&& self.since(before) == fx.ops
        &&& self.mmu.continues(before.mmu)
        &&& self@ == (CpuState { reg: fx.reg, ..before@ })
    }

    /// `self` is `before` after a step with outcome `out`.
    pub open spec fn arrives(self, before: Self, out: Outcome) -> bool {
        &&& self.mmu.trace() == before.mmu.trace() + out.ops
        &&& self.since(before) == out.ops
        &&& self.mmu.continues(before.mmu)
        &&& self@ == out.state
    }

    /// The processor as the boot ROM leaves it, with the first opcode
    /// fetched from 0x0100.
    pub fn new(mmu: M) -> (cpu: Self)
        ensures
            cpu.mmu.trace() == seq![BusEvent::Read { addr: 0x0100, val: cpu.prefetched }],
            cpu.mmu.origin() == mmu,
            cpu.mmu.linked(),
            cpu@ == (CpuState {
                reg: Registers { pc: 0x0101, ..Registers::power_on() },
                halted: false,
                stopped: false,
                ime: false,
                ime_scheduled: false,
                prefetched: cpu.prefetched,
            }),
            cpu.reg.wf(),
    {
        let mut cpu = Self {
            reg: Registers::new(),
            halted: false,
            stopped: false,
            ime: false,
            ime_scheduled: false,
            prefetched: 0,
            mmu: Bus::new(mmu),
        };
        cpu.prefetched = cpu.read_byte();
        assert(cpu.mmu.trace() =~= seq![BusEvent::Read { addr: 0x0100, val: cpu.prefetched }]);
        cpu
    }

    /// The state between two steps, as a conformance log shows it.
    pub fn doctor_log_state(&self) -> (d: DoctorState)
        ensures
            d == doctor_state(self@),
    {
        DoctorState {
            a: self.reg.a,
            f: self.reg.f,
            b: self.reg.b,
            c: self.reg.c,
            d: self.reg.d,
            e: self.reg.e,
            h: self.reg.h,
            l: self.reg.l,
            sp: self.reg.sp,
            pc: self.reg.pc.wrapping_sub(1),
            next: self.prefetched,
        }
    }

    /// Fetches the byte at PC and moves PC past it. One machine cycle.
    pub fn read_byte(&mut self) -> (val: u8)
        ensures
            final(self).follows(
                *old(self),
                Effect {
                    reg: Registers { pc: old(self).reg.pc.wrapping_add(1), ..old(self).reg },
                    ops: seq![BusEvent::Read { addr: old(self).reg.pc, val }],
                },
            ),
    {
        let val = self.mmu.read(self.reg.pc);
        self.reg.pc = self.reg.pc.wrapping_add(1);
        proof {
            lemma_emitted(
                old(self).mmu.trace(),
                seq![BusEvent::Read { addr: old(self).reg.pc, val }],
                self.mmu.trace(),
            );
        }
        val
    }

    /// Fetches the two bytes at PC, low byte first, and moves PC past them.
    /// Two machine cycles.
    pub fn read_word(&mut self) -> (w: u16)
        ensures
            final(self).follows(
                *old(self),
                Effect {
                    reg: Registers { pc: old(self).reg.pc.wrapping_add(2), ..old(self).reg },
                    ops: seq![
                        BusEvent::Read { addr: old(self).reg.pc, val: low_byte(w) },
                        BusEvent::Read {
                            addr: old(self).reg.pc.wrapping_add(1),
                            val: high_byte(w),
                        },
                    ],
                },
            ),
    {
        let lo = self.read_byte();
        let hi = self.read_byte();
        let w = join(hi, lo);
        proof {
            lemma_emitted(
                old(self).mmu.trace(),
                seq![
                    BusEvent::Read { addr: old(self).reg.pc, val: low_byte(w) },
                    BusEvent::Read { addr: old(self).reg.pc.wrapping_add(1), val: high_byte(w) },
                ],
                self.mmu.trace(),
            );
        }
        w
    }

    /// DAA: one machine cycle.
    pub fn daa(&mut self) -> (cycles: u8)
        ensures
            final(self).follows(
                *old(self),
                Effect { reg: decimal_adjusted(old(self).reg), ops: seq![] },
            ),
            cycles == 1,
            final(self).reg.wf(),
    {
        let n = self.reg.get_flag(CpuFlag::N);
        let h = self.reg.get_flag(CpuFlag::H);
        let c = self.reg.get_flag(CpuFlag::C);
        let a = self.reg.a;
        if !n {
            let high = c || a > 0x99;
            let low = h || (a & 0x0F) > 0x09;
            let mut adjust: u8 = 0;
            if high {
                adjust = adjust + 0x60;
            }
            if low {
                adjust = adjust + 0x06;
            }
            self.reg.a = a.wrapping_add(adjust);
            self.reg.set_flags(self.reg.a == 0, n, false, high);
        } else {
            let mut adjust: u8 = 0;
            if c {
                adjust = adjust + 0x60;
            }
            if h {
                adjust = adjust + 0x06;
            }
            self.reg.a = a.wrapping_sub(adjust);
            self.reg.set_flags(self.reg.a == 0, n, false, c);
        }
        proof {
            lemma_emitted(old(self).mmu.trace(), seq![], self.mmu.trace());
        }
        1
    }

    /// SCF: one machine cycle.
    pub fn scf(&mut self) -> (cycles: u8)
        ensures
            final(self).follows(*old(self), Effect { reg: carry_set(old(self).reg), ops: seq![] }),
            cycles == 1,
            final(self).reg.wf(),
    {
        let z = self.reg.get_flag(CpuFlag::Z);
        self.reg.set_flags(z, false, false, true);
        proof {
            lemma_emitted(old(self).mmu.trace(), seq![], self.mmu.trace());
        }
        1
    }

    /// CPL: one machine cycle.
    pub fn cpl(&mut self) -> (cycles: u8)
        ensures
            final(self).follows(
                *old(self),
                Effect { reg: complemented(old(self).reg), ops: seq![] },
            ),
            cycles == 1,
            final(self).reg.wf(),
    {
        let z = self.reg.get_flag(CpuFlag::Z);
        let c = self.reg.get_flag(CpuFlag::C);
        self.reg.a = !self.reg.a;
        self.reg.set_flags(z, true, true, c);
        proof {
            lemma_emitted(old(self).mmu.trace(), seq![], self.mmu.trace());
        }
        1
    }

    /// CCF: one machine cycle.
    pub fn ccf(&mut self) -> (cycles: u8)
        ensures
            final(self).follows(
                *old(self),
                Effect { reg: carry_flipped(old(self).reg), ops: seq![] },
            ),
            cycles == 1,
            final(self).reg.wf(),
    {
        let z = self.reg.get_flag(CpuFlag::Z);
        let c = self.reg.get_flag(CpuFlag::C);
        self.reg.set_flags(z, false, false, !c);
        proof {
            lemma_emitted(old(self).mmu.trace(), seq![], self.mmu.trace());
        }
        1
    }

    /// Runs one instruction of the prefixed page: fetches its opcode and
    /// executes it. The count includes the fetch of the prefix.
    pub fn execute_cb(&mut self) -> (cycles: u8)
        ensures
            ({
                let fx = cb_effect(old(self).reg, final(self).since(*old(self)));
                &&& final(self).follows(*old(self), fx)
                &&& cycles == fx.ops.len() + 1
            }),
            old(self).reg.wf() ==> final(self).reg.wf(),
    {
        let opcode = self.read_byte();
        let ghost mid = *self;
        let cycles = if opcode < 0x08 {
            rlc(self, opcode)
        } else if opcode < 0x10 {
            rrc(self, opcode)
        } else if opcode < 0x18 {
            rl(self, opcode)
        } else if opcode < 0x20 {
            rr(self, opcode)
        } else if opcode < 0x28 {
            sla(self, opcode)
        } else if opcode < 0x30 {
            sra(self, opcode)
        } else if opcode < 0x38 {
            swap(self, opcode)
        } else if opcode < 0x40 {
            srl(self, opcode)
        } else if opcode < 0x80 {
            bit(self, opcode)
        } else if opcode < 0xC0 {
            res(self, opcode)
        } else {
            crate::shifts::set(self, opcode)
        };
        proof {
            lemma_emitted_twice(
                old(self).mmu.trace(),
                seq![BusEvent::Read { addr: old(self).reg.pc, val: opcode }],
                mid.mmu.trace(),
                self.since(mid),
                self.mmu.trace(),
            );
        }
        cycles
    }

    /// Executes the opcode in `prefetched` and returns its machine cycles,
    /// the one that overlaps the next fetch included. The fetch itself is
    /// left to the caller.
    pub fn execute(&mut self) -> (cycles: u8)
        requires
            !is_illegal(old(self).prefetched),
        ensures
            ({
                let out = execute_effect(old(self)@, final(self).since(*old(self)));
                &&& final(self).arrives(*old(self), out)
                &&& cycles == out.ops.len() + 1
            }),
            old(self).reg.wf() ==> final(self).reg.wf(),
    {
        proof {
            reveal(execute_effect);
        }
        let op = self.prefetched;
        if op == 0x00 || op == 0x10 || op == 0x76 || op == 0xF3 || op == 0xFB {
            if op == 0x10 {
                self.stopped = true;
            } else if op == 0x76 {
                self.halted = true;
            } else if op == 0xF3 {
                self.ime = false;
            } else if op == 0xFB {
                self.ime_scheduled = true;
            }
            proof {
                lemma_emitted(old(self).mmu.trace(), seq![], self.mmu.trace());
            }
            1
        } else if op == 0xD9 {
            reti(self)
        } else if op == 0x27 {
            self.daa()
        } else if op == 0x2F {
            self.cpl()
        } else if op == 0x37 {
            self.scf()
        } else if op == 0x3F {
            self.ccf()
        } else if op == 0x07 {
            rlca(self)
        } else if op == 0x0F {
            rrca(self)
        } else if op == 0x17 {
            rla(self)
        } else if op == 0x1F {
            rra(self)
        } else if op == 0x36 {
            ld_cst_to_mem(self)
        } else if op == 0xCB {
            self.execute_cb()
        } else if op < 0x40 && op % 8 == 6 {
            ld_cst_to_reg(self, op)
        } else if op < 0x40 && op % 16 == 1 {
            ld_cst16_to_reg(self, op)
        } else if (0x40 <= op && op <= 0x7F && op % 8 != 6 && (op / 8) % 8 != 6) || op == 0xF8 || op
            == 0xF9 {
            ld_reg_to_reg(self, op)
        } else if (0x40 <= op && op <= 0x7F && op % 8 == 6) || op == 0x0A || op == 0x1A || op == 0x2A
            || op == 0x3A || op == 0xF0 || op == 0xF2 || op == 0xFA {
            ld_mem_to_reg(self, op)
        } else if (0x70 <= op && op <= 0x77) || op == 0x02 || op == 0x12 || op == 0x22 || op == 0x32
            || op == 0xE0 || op == 0xE2 || op == 0xEA || op == 0x08 {
            ld_reg_to_mem(self, op)
        } else if op < 0x40 && (op % 8 == 4 || op % 16 == 0x03) {
            incr(self, op)
        } else if op < 0x40 && (op % 8 == 5 || op % 16 == 0x0B) {
            decr(self, op)
        } else if op == 0x18 || op == 0x20 || op == 0x28 || op == 0x30 || op == 0x38 {
            jr(self, op)
        } else if op < 0x40 || (0x80 <= op && op <= 0x87) || op == 0xC6 || op == 0xE8 {
            crate::alu::add(self, op)
        } else if (0x88 <= op && op <= 0x8F) || op == 0xCE {
            adc(self, op)
        } else if (0x90 <= op && op <= 0x97) || op == 0xD6 {
            crate::alu::sub(self, op)
        } else if (0x98 <= op && op <= 0x9F) || op == 0xDE {
            sbc(self, op)
        } else if (0xA0 <= op && op <= 0xA7) || op == 0xE6 {
            and(self, op)
        } else if (0xA8 <= op && op <= 0xAF) || op == 0xEE {
            xor(self, op)
        } else if (0xB0 <= op && op <= 0xB7) || op == 0xF6 {
            or(self, op)
        } else if (0xB8 <= op && op <= 0xBF) || op == 0xFE {
            cp(self, op)
        } else if op == 0xC3 || op == 0xC2 || op == 0xCA || op == 0xD2 || op == 0xDA || op == 0xE9 {
            jp(self, op)
        } else if op == 0xCD || op == 0xC4 || op == 0xCC || op == 0xD4 || op == 0xDC {
            call(self, op)
        } else if op == 0xC9 || op == 0xC0 || op == 0xC8 || op == 0xD0 || op == 0xD8 {
            ret(self, op)
        } else if op % 8 == 7 {
            rst(self, op)
        } else if op % 16 == 5 {
            push(self, op)
        } else {
            pop(self, op)
        }
    }

    /// Takes the interrupt on `line`: withdraws the request, clears the
    /// master enable, spends two internal cycles, puts the address of the
    /// opcode that was about to run on the stack, spends one more internal
    /// cycle, and fetches the first opcode of the handler at
    /// `0x40 + 8 * line`. Reports five machine cycles.
    pub fn service_interrupt(&mut self, line: u8) -> (cycles: u8)
        requires
            line < 5,
        ensures
            final(self).arrives(*old(self), interrupt_outcome(old(self)@, line, final(self).prefetched)),
            cycles == 5,
            old(self).reg.wf() ==> final(self).reg.wf(),
    {
        self.mmu.acknowledge(line);
        self.ime = false;
        self.ime_scheduled = false;
        self.halted = false;
        self.mmu.idle();
        self.mmu.idle();
        let back = self.reg.pc.wrapping_sub(1);
        push_word(self, back);
        self.mmu.idle();
        self.mmu.tick(5);
        let vector: u16 = 0x40 + 8 * (line as u16);
        let latch = self.mmu.read(vector);
        self.reg.pc = vector + 1;
        self.prefetched = latch;
        proof {
            lemma_emitted(
                old(self).mmu.trace(),
                interrupt_outcome(old(self)@, line, latch).ops,
                self.mmu.trace(),
            );
        }
        5
    }

    /// Executes one step: an interrupt dispatch if one is due, one idle
    /// cycle while halted, else the instruction in `prefetched`, followed
    /// by the fetch of the next opcode. Returns the machine cycles taken,
    /// or the opcode if the processor does not define it.
    pub fn step(&mut self) -> (result: Result<u8, CpuError>)
        requires
            old(self).reg.wf(),
        ensures
            ({
                let out = step_outcome(old(self)@, final(self).since(*old(self)));
                &&& final(self).arrives(*old(self), out.0)
                &&& result == out.1
            }),
            final(self).reg.wf(),
    {
        let raw = self.mmu.sample();
        let ghost sampled = *self;
        let ghost sample = BusEvent::Sample { lines: raw };
        let lines = raw & 0x1F;
        if lines != 0 {
            self.halted = false;
        }
        if self.ime && lines != 0 {
            let ghost before = *self;
            let cycles = self.service_interrupt(highest_priority(lines));
            proof {
                assert(sampled.mmu.trace() =~= old(self).mmu.trace() + seq![sample]);
                lemma_emitted_twice(
                    old(self).mmu.trace(),
                    seq![sample],
                    sampled.mmu.trace(),
                    self.since(before),
                    self.mmu.trace(),
                );
                assert((seq![sample] + self.since(before))[8].value() == self.prefetched);
            }
            return Ok(cycles);
        }
        if self.halted {
            self.mmu.idle();
            self.mmu.tick(1);
            proof {
                lemma_emitted(
                    old(self).mmu.trace(),
                    seq![sample, BusEvent::Internal, BusEvent::Tick { cycles: 1 }],
                    self.mmu.trace(),
                );
            }
            return Ok(1);
        }
        let opcode = self.prefetched;
        if illegal(opcode) {
            proof {
                lemma_emitted(old(self).mmu.trace(), seq![sample], self.mmu.trace());
            }
            return Err(CpuError::UndefinedOpcode(opcode));
        }
        let scheduled = self.ime_scheduled;
        self.ime_scheduled = false;
        let ghost before = *self;
        let cycles = self.execute();
        let ghost body = self.since(before);
        self.mmu.tick(cycles);
        let latch = self.mmu.read(self.reg.pc);
        let ghost tail = seq![
            BusEvent::Tick { cycles },
            BusEvent::Read { addr: self.reg.pc, val: latch },
        ];
        if !(opcode == 0x76 && lines != 0) {
            self.reg.pc = self.reg.pc.wrapping_add(1);
        }
        self.prefetched = latch;
        if scheduled {
            self.ime = true;
        }
        proof {
            lemma_step_shape(
                old(self).mmu.trace(),
                sample,
                body,
                tail[0],
                tail[1],
                self.mmu.trace(),
            );
        }
        Ok(cycles)
    }

    /// Runs one step for a caller that keeps no count of the cycles.
    pub fn tick(&mut self) -> (result: Result<(), CpuError>)
        requires
            old(self).reg.wf(),
        ensures
            ({
                let out = step_outcome(old(self)@, final(self).since(*old(self)));
                &&& final(self).arrives(*old(self), out.0)
                &&& result is Ok == out.1 is Ok
                &&& result is Err ==> result->Err_0 == out.1->Err_0
            }),
            final(self).reg.wf(),
    {
        match self.step() {
            Ok(_) => Ok(()),
            Err(e) => Err(e),
        }
    }
}

} // verus!
