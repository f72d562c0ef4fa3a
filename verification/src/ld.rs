//! Loads: between registers, from and to memory, and of immediates.

use vstd::prelude::*;
use crate::alu::{alu_ld_hl_sp, decode_pair, decode_reg, hl_from_sp, pair_at, reg_at, wrap16};
use crate::cpu::{lemma_emitted, Cpu, Effect};
use crate::memory::{
    instruction_cycles, lemma_ram_keeps_word, lemma_replay_push, BusEvent, MemoryBus, MmuView,
};
use crate::registers::{high_byte, low_byte, lower, upper, word, Registers};

verus! {

/// The address in the top page that the byte `n` selects.
pub open spec fn high_page(n: u8) -> u16 {
    (0xFF00 + n) as u16
}

/// Computes the address in the top page that the byte `n` selects.
#[verifier::when_used_as_spec(high_page)]
pub fn high_page_addr(n: u8) -> (addr: u16)
    ensures
        addr == high_page(n),
{
    0xFF00 + (n as u16)
}

/// The opcodes of the loads between registers: LD r,r' from 0x40 to 0x7F,
/// LD HL,SP+e (0xF8) and LD SP,HL (0xF9).
pub open spec fn is_ld_reg_to_reg(opcode: u8) -> bool {
    (0x40 <= opcode <= 0x7F && opcode % 8 != 6 && (opcode / 8) % 8 != 6) || opcode == 0xF8
        || opcode == 0xF9
}

/// The opcodes of LD r,n: 0x06 to 0x3E in steps of 8, but for 0x36.
pub open spec fn is_ld_cst_to_reg(opcode: u8) -> bool {
    opcode < 0x40 && opcode % 8 == 6 && opcode != 0x36
}

/// The opcodes of LD rr,nn: 0x01, 0x11, 0x21 and 0x31.
pub open spec fn is_ld_cst16_to_reg(opcode: u8) -> bool {
    opcode < 0x40 && opcode % 16 == 1
}

/// The opcodes of the loads from memory: LD r,(HL), LD A,(BC), LD A,(DE),
/// LD A,(HL+), LD A,(HL-), LDH A,(n), LD A,(C) and LD A,(nn).
pub open spec fn is_ld_mem_to_reg(opcode: u8) -> bool {
    (0x40 <= opcode <= 0x7F && opcode % 8 == 6 && opcode != 0x76) || opcode == 0x0A || opcode
        == 0x1A || opcode == 0x2A || opcode == 0x3A || opcode == 0xF0 || opcode == 0xF2 || opcode
        == 0xFA
}

/// The opcodes of the stores to memory: LD (HL),r, LD (BC),A, LD (DE),A,
/// LD (HL+),A, LD (HL-),A, LDH (n),A, LD (C),A, LD (nn),A and LD (nn),SP.
pub open spec fn is_ld_reg_to_mem(opcode: u8) -> bool {
    (0x70 <= opcode <= 0x77 && opcode != 0x76) || opcode == 0x02 || opcode == 0x12 || opcode
        == 0x22 || opcode == 0x32 || opcode == 0xE0 || opcode == 0xE2 || opcode == 0xEA || opcode
        == 0x08
}

/// LD r,r' with no bus event; LD HL,SP+e, which reads the offset and
/// spends one internal cycle; LD SP,HL, which spends one internal cycle.
pub open spec fn ld_reg_to_reg_effect(r: Registers, opcode: u8, e: Seq<BusEvent>) -> Effect {
    if opcode == 0xF8 {
        Effect {
            reg: hl_from_sp(Registers { pc: r.pc.wrapping_add(1), ..r }, e[0].value()),
            ops: seq![BusEvent::Read { addr: r.pc, val: e[0].value() }, BusEvent::Internal],
        }
    } else if opcode == 0xF9 {
        Effect { reg: Registers { sp: r.spec_hl(), ..r }, ops: seq![BusEvent::Internal] }
    } else {
        match (reg_at((opcode / 8) % 8), reg_at(opcode % 8)) {
            (Some(dst), Some(src)) => Effect { reg: r.with8(dst, r.spec_get8(src)), ops: seq![] },
            _ => Effect { reg: r, ops: seq![] },
        }
    }
}

/// LD r,n: the byte after the opcode goes to the register.
pub open spec fn ld_cst_to_reg_effect(r: Registers, opcode: u8, e: Seq<BusEvent>) -> Effect {
    let next = Registers { pc: r.pc.wrapping_add(1), ..r };
    Effect {
        reg: match reg_at(opcode / 8) {
            Some(dst) => next.with8(dst, e[0].value()),
            None => next,
        },
        ops: seq![BusEvent::Read { addr: r.pc, val: e[0].value() }],
    }
}

/// LD rr,nn: the two bytes after the opcode, low byte first, go to the
/// pair or to SP.
pub open spec fn ld_cst16_to_reg_effect(r: Registers, opcode: u8, e: Seq<BusEvent>) -> Effect {
    Effect {
        reg: Registers { pc: r.pc.wrapping_add(2), ..r }.with16(
            pair_at(opcode / 16),
            word(e[1].value(), e[0].value()),
        ),
        ops: seq![
            BusEvent::Read { addr: r.pc, val: e[0].value() },
            BusEvent::Read { addr: r.pc.wrapping_add(1), val: e[1].value() },
        ],
    }
}

/// The loads from memory into a register.
pub open spec fn ld_mem_to_reg_effect(r: Registers, opcode: u8, e: Seq<BusEvent>) -> Effect {
    if opcode == 0x0A {
        Effect {
            reg: Registers { a: e[0].value(), ..r },
            ops: seq![BusEvent::Read { addr: r.spec_bc(), val: e[0].value() }],
        }
    } else if opcode == 0x1A {
        Effect {
            reg: Registers { a: e[0].value(), ..r },
            ops: seq![BusEvent::Read { addr: r.spec_de(), val: e[0].value() }],
        }
    } else if opcode == 0x2A {
        Effect {
            reg: Registers { a: e[0].value(), ..r }.with_hl(wrap16(r.spec_hl() + 1)),
            ops: seq![BusEvent::Read { addr: r.spec_hl(), val: e[0].value() }],
        }
    } else if opcode == 0x3A {
        Effect {
            reg: Registers { a: e[0].value(), ..r }.with_hl(wrap16(r.spec_hl() - 1)),
            ops: seq![BusEvent::Read { addr: r.spec_hl(), val: e[0].value() }],
        }
    } else if opcode == 0xF0 {
        Effect {
            reg: Registers { a: e[1].value(), pc: r.pc.wrapping_add(1), ..r },
            ops: seq![
                BusEvent::Read { addr: r.pc, val: e[0].value() },
                BusEvent::Read { addr: high_page(e[0].value()), val: e[1].value() },
            ],
        }
    } else if opcode == 0xF2 {
        Effect {
            reg: Registers { a: e[0].value(), ..r },
            ops: seq![BusEvent::Read { addr: high_page(r.c), val: e[0].value() }],
        }
    } else if opcode == 0xFA {
        Effect {
            reg: Registers { a: e[2].value(), pc: r.pc.wrapping_add(2), ..r },
            ops: seq![
                BusEvent::Read { addr: r.pc, val: e[0].value() },
                BusEvent::Read { addr: r.pc.wrapping_add(1), val: e[1].value() },
                BusEvent::Read { addr: word(e[1].value(), e[0].value()), val: e[2].value() },
            ],
        }
    } else {
        Effect {
            reg: match reg_at((opcode / 8) % 8) {
                Some(dst) => r.with8(dst, e[0].value()),
                None => r,
            },
            ops: seq![BusEvent::Read { addr: r.spec_hl(), val: e[0].value() }],
        }
    }
}

/// The stores from a register into memory. LD (nn),SP writes the low byte
/// of SP at nn and the high byte after it.
pub open spec fn ld_reg_to_mem_effect(r: Registers, opcode: u8, e: Seq<BusEvent>) -> Effect {
    if opcode == 0x02 {
        Effect { reg: r, ops: seq![BusEvent::Write { addr: r.spec_bc(), val: r.a }] }
    } else if opcode == 0x12 {
        Effect { reg: r, ops: seq![BusEvent::Write { addr: r.spec_de(), val: r.a }] }
    } else if opcode == 0x22 {
        Effect {
            reg: r.with_hl(wrap16(r.spec_hl() + 1)),
            ops: seq![BusEvent::Write { addr: r.spec_hl(), val: r.a }],
        }
    } else if opcode == 0x32 {
        Effect {
            reg: r.with_hl(wrap16(r.spec_hl() - 1)),
            ops: seq![BusEvent::Write { addr: r.spec_hl(), val: r.a }],
        }
    } else if opcode == 0xE0 {
        Effect {
            reg: Registers { pc: r.pc.wrapping_add(1), ..r },
            ops: seq![
                BusEvent::Read { addr: r.pc, val: e[0].value() },
                BusEvent::Write { addr: high_page(e[0].value()), val: r.a },
            ],
        }
    } else if opcode == 0xE2 {
        Effect { reg: r, ops: seq![BusEvent::Write { addr: high_page(r.c), val: r.a }] }
    } else if opcode == 0xEA {
        Effect {
            reg: Registers { pc: r.pc.wrapping_add(2), ..r },
            ops: seq![
                BusEvent::Read { addr: r.pc, val: e[0].value() },
                BusEvent::Read { addr: r.pc.wrapping_add(1), val: e[1].value() },
                BusEvent::Write { addr: word(e[1].value(), e[0].value()), val: r.a },
            ],
        }
    } else if opcode == 0x08 {
        Effect {
            reg: Registers { pc: r.pc.wrapping_add(2), ..r },
            ops: seq![
                BusEvent::Read { addr: r.pc, val: e[0].value() },
                BusEvent::Read { addr: r.pc.wrapping_add(1), val: e[1].value() },
                BusEvent::Write { addr: word(e[1].value(), e[0].value()), val: low_byte(r.sp) },
                BusEvent::Write {
                    addr: word(e[1].value(), e[0].value()).wrapping_add(1),
                    val: high_byte(r.sp),
                },
            ],
        }
    } else {
        Effect {
            reg: r,
            ops: seq![
                BusEvent::Write {
                    addr: r.spec_hl(),
                    val: match reg_at(opcode % 8) {
                        Some(src) => r.spec_get8(src),
                        None => 0,
                    },
                },
            ],
        }
    }
}

/// LD (HL),n: the byte after the opcode is written at HL.
pub open spec fn ld_cst_to_mem_effect(r: Registers, e: Seq<BusEvent>) -> Effect {
    Effect {
        reg: Registers { pc: r.pc.wrapping_add(1), ..r },
        ops: seq![
            BusEvent::Read { addr: r.pc, val: e[0].value() },
            BusEvent::Write { addr: r.spec_hl(), val: e[0].value() },
        ],
    }
}

/// LD r,r' in one machine cycle, LD SP,HL in two, LD HL,SP+e in three.
pub fn ld_reg_to_reg<M: MemoryBus>(cpu: &mut Cpu<M>, opcode: u8) -> (cycles: u8)
    requires
        is_ld_reg_to_reg(opcode),
    ensures
        ({
            let fx = ld_reg_to_reg_effect(old(cpu).reg, opcode, final(cpu).since(*old(cpu)));
            &&& final(cpu).follows(*old(cpu), fx)
            &&& cycles == fx.ops.len() + 1
        }),
        old(cpu).reg.wf() ==> final(cpu).reg.wf(),
{
    if opcode == 0xF8 {
        let offset = cpu.read_byte();
        alu_ld_hl_sp(&mut cpu.reg, offset);
        cpu.mmu.idle();
        proof {
            lemma_emitted(
                old(cpu).mmu.trace(),
                seq![BusEvent::Read { addr: old(cpu).reg.pc, val: offset }, BusEvent::Internal],
                cpu.mmu.trace(),
            );
        }
        3
    } else if opcode == 0xF9 {
        cpu.reg.sp = cpu.reg.hl();
        cpu.mmu.idle();
        proof {
            lemma_emitted(old(cpu).mmu.trace(), seq![BusEvent::Internal], cpu.mmu.trace());
        }
        2
    } else {
        match (decode_reg((opcode / 8) % 8), decode_reg(opcode % 8)) {
            (Some(dst), Some(src)) => {
                let v = cpu.reg.get8(src);
                cpu.reg.set8(dst, v);
            },
            _ => {},
        }
        proof {
            lemma_emitted(old(cpu).mmu.trace(), seq![], cpu.mmu.trace());
        }
        1
    }
}

/// LD r,n: two machine cycles.
pub fn ld_cst_to_reg<M: MemoryBus>(cpu: &mut Cpu<M>, opcode: u8) -> (cycles: u8)
    requires
        is_ld_cst_to_reg(opcode),
    ensures
        ({
            let fx = ld_cst_to_reg_effect(old(cpu).reg, opcode, final(cpu).since(*old(cpu)));
            &&& final(cpu).follows(*old(cpu), fx)
            &&& cycles == fx.ops.len() + 1
        }),
        old(cpu).reg.wf() ==> final(cpu).reg.wf(),
{
    let constant = cpu.read_byte();
    match decode_reg(opcode / 8) {
        Some(dst) => cpu.reg.set8(dst, constant),
        None => {},
    }
    proof {
        lemma_emitted(
            old(cpu).mmu.trace(),
            seq![BusEvent::Read { addr: old(cpu).reg.pc, val: constant }],
            cpu.mmu.trace(),
        );
    }
    2
}

/// LD rr,nn: three machine cycles.
pub fn ld_cst16_to_reg<M: MemoryBus>(cpu: &mut Cpu<M>, opcode: u8) -> (cycles: u8)
    requires
        is_ld_cst16_to_reg(opcode),
    ensures
        ({
            let fx = ld_cst16_to_reg_effect(old(cpu).reg, opcode, final(cpu).since(*old(cpu)));
            &&& final(cpu).follows(*old(cpu), fx)
            &&& cycles == fx.ops.len() + 1
        }),
        old(cpu).reg.wf() ==> final(cpu).reg.wf(),
{
    let constant = cpu.read_word();
    cpu.reg.set16(decode_pair(opcode / 16), constant);
    proof {
        lemma_emitted(
            old(cpu).mmu.trace(),
            seq![
                BusEvent::Read { addr: old(cpu).reg.pc, val: low_byte(constant) },
                BusEvent::Read {
                    addr: old(cpu).reg.pc.wrapping_add(1),
                    val: high_byte(constant),
                },
            ],
            cpu.mmu.trace(),
        );
    }
    3
}

/// The loads whose address follows the opcode: LDH A,(n) and LD A,(nn).
fn load_at_immediate<M: MemoryBus>(cpu: &mut Cpu<M>, opcode: u8) -> (cycles: u8)
    requires
        opcode == 0xF0 || opcode == 0xFA,
    ensures
        ({
            let fx = ld_mem_to_reg_effect(old(cpu).reg, opcode, final(cpu).since(*old(cpu)));
            &&& final(cpu).follows(*old(cpu), fx)
            &&& cycles == fx.ops.len() + 1
        }),
        old(cpu).reg.wf() ==> final(cpu).reg.wf(),
{
    if opcode == 0xF0 {
        let n = cpu.read_byte();
        let v = cpu.mmu.read(high_page_addr(n));
        cpu.reg.a = v;
        proof {
            lemma_emitted(
                old(cpu).mmu.trace(),
                seq![
                    BusEvent::Read { addr: old(cpu).reg.pc, val: n },
                    BusEvent::Read { addr: high_page(n), val: v },
                ],
                cpu.mmu.trace(),
            );
        }
        3
    } else {
        let addr = cpu.read_word();
        let v = cpu.mmu.read(addr);
        cpu.reg.a = v;
        proof {
            lemma_emitted(
                old(cpu).mmu.trace(),
                seq![
                    BusEvent::Read { addr: old(cpu).reg.pc, val: low_byte(addr) },
                    BusEvent::Read { addr: old(cpu).reg.pc.wrapping_add(1), val: high_byte(addr) },
                    BusEvent::Read { addr, val: v },
                ],
                cpu.mmu.trace(),
            );
        }
        4
    }
}

/// The loads whose address is in a register: through BC, DE, HL or C.
fn load_at_register<M: MemoryBus>(cpu: &mut Cpu<M>, opcode: u8) -> (cycles: u8)
    requires
        is_ld_mem_to_reg(opcode),
        opcode != 0xF0 && opcode != 0xFA,
    ensures
        ({
            let fx = ld_mem_to_reg_effect(old(cpu).reg, opcode, final(cpu).since(*old(cpu)));
            &&& final(cpu).follows(*old(cpu), fx)
            &&& cycles == fx.ops.len() + 1
        }),
        old(cpu).reg.wf() ==> final(cpu).reg.wf(),
{
    let addr = if opcode == 0x0A {
        cpu.reg.bc()
    } else if opcode == 0x1A {
        cpu.reg.de()
    } else if opcode == 0xF2 {
        high_page_addr(cpu.reg.c)
    } else {
        cpu.reg.hl()
    };
    let v = cpu.mmu.read(addr);
    if opcode == 0x2A {
        cpu.reg.a = v;
        cpu.reg.set_hl(addr.wrapping_add(1));
    } else if opcode == 0x3A {
        cpu.reg.a = v;
        cpu.reg.set_hl(addr.wrapping_sub(1));
    } else if opcode < 0x40 || opcode == 0xF2 {
        cpu.reg.a = v;
    } else {
        match decode_reg((opcode / 8) % 8) {
            Some(dst) => cpu.reg.set8(dst, v),
            None => {},
        }
    }
    proof {
        lemma_emitted(old(cpu).mmu.trace(), seq![BusEvent::Read { addr, val: v }], cpu.mmu.trace());
    }
    2
}

/// The loads from memory: two machine cycles through a pair or through C,
/// three through an immediate byte, four through an immediate address.
pub fn ld_mem_to_reg<M: MemoryBus>(cpu: &mut Cpu<M>, opcode: u8) -> (cycles: u8)
    requires
        is_ld_mem_to_reg(opcode),
    ensures
        ({
            let fx = ld_mem_to_reg_effect(old(cpu).reg, opcode, final(cpu).since(*old(cpu)));
            &&& final(cpu).follows(*old(cpu), fx)
            &&& cycles == fx.ops.len() + 1
        }),
        old(cpu).reg.wf() ==> final(cpu).reg.wf(),
{
    if opcode == 0xF0 || opcode == 0xFA {
        load_at_immediate(cpu, opcode)
    } else {
        load_at_register(cpu, opcode)
    }
}

/// The stores whose address follows the opcode: LDH (n),A, LD (nn),A and
/// LD (nn),SP.
fn store_at_immediate<M: MemoryBus>(cpu: &mut Cpu<M>, opcode: u8) -> (cycles: u8)
    requires
        opcode == 0xE0 || opcode == 0xEA || opcode == 0x08,
    ensures
        ({
            let fx = ld_reg_to_mem_effect(old(cpu).reg, opcode, final(cpu).since(*old(cpu)));
            &&& final(cpu).follows(*old(cpu), fx)
            &&& cycles == fx.ops.len() + 1
        }),
        old(cpu).reg.wf() ==> final(cpu).reg.wf(),
{
    if opcode == 0xE0 {
        let n = cpu.read_byte();
        cpu.mmu.write(high_page_addr(n), cpu.reg.a);
        proof {
            lemma_emitted(
                old(cpu).mmu.trace(),
                seq![
                    BusEvent::Read { addr: old(cpu).reg.pc, val: n },
                    BusEvent::Write { addr: high_page(n), val: old(cpu).reg.a },
                ],
                cpu.mmu.trace(),
            );
        }
        3
    } else {
        let addr = cpu.read_word();
        let ghost lo = BusEvent::Read { addr: old(cpu).reg.pc, val: low_byte(addr) };
        let ghost hi = BusEvent::Read {
            addr: old(cpu).reg.pc.wrapping_add(1),
            val: high_byte(addr),
        };
        if opcode == 0xEA {
            cpu.mmu.write(addr, cpu.reg.a);
            proof {
                lemma_emitted(
                    old(cpu).mmu.trace(),
                    seq![lo, hi, BusEvent::Write { addr, val: old(cpu).reg.a }],
                    cpu.mmu.trace(),
                );
            }
            4
        } else {
            cpu.mmu.write(addr, lower(cpu.reg.sp));
            cpu.mmu.write(addr.wrapping_add(1), upper(cpu.reg.sp));
            proof {
                lemma_emitted(
                    old(cpu).mmu.trace(),
                    seq![
                        lo,
                        hi,
                        BusEvent::Write { addr, val: low_byte(old(cpu).reg.sp) },
                        BusEvent::Write {
                            addr: addr.wrapping_add(1),
                            val: high_byte(old(cpu).reg.sp),
                        },
                    ],
                    cpu.mmu.trace(),
                );
            }
            5
        }
    }
}

/// The stores whose address is in a register: through BC, DE, HL or C.
fn store_at_register<M: MemoryBus>(cpu: &mut Cpu<M>, opcode: u8) -> (cycles: u8)
    requires
        is_ld_reg_to_mem(opcode),
        opcode != 0xE0 && opcode != 0xEA && opcode != 0x08,
    ensures
        ({
            let fx = ld_reg_to_mem_effect(old(cpu).reg, opcode, final(cpu).since(*old(cpu)));
            &&& final(cpu).follows(*old(cpu), fx)
            &&& cycles == fx.ops.len() + 1
        }),
        old(cpu).reg.wf() ==> final(cpu).reg.wf(),
{
    let addr = if opcode == 0x02 {
        cpu.reg.bc()
    } else if opcode == 0x12 {
        cpu.reg.de()
    } else if opcode == 0xE2 {
        high_page_addr(cpu.reg.c)
    } else {
        cpu.reg.hl()
    };
    let v = if opcode < 0x40 || opcode == 0xE2 {
        cpu.reg.a
    } else {
        match decode_reg(opcode % 8) {
            Some(src) => cpu.reg.get8(src),
            None => 0,
        }
    };
    cpu.mmu.write(addr, v);
    if opcode == 0x22 {
        cpu.reg.set_hl(addr.wrapping_add(1));
    } else if opcode == 0x32 {
        cpu.reg.set_hl(addr.wrapping_sub(1));
    }
    proof {
        lemma_emitted(old(cpu).mmu.trace(), seq![BusEvent::Write { addr, val: v }], cpu.mmu.trace());
    }
    2
}

/// The stores to memory: two machine cycles through a pair or through C,
/// three through an immediate byte, four through an immediate address,
/// five for SP.
pub fn ld_reg_to_mem<M: MemoryBus>(cpu: &mut Cpu<M>, opcode: u8) -> (cycles: u8)
    requires
        is_ld_reg_to_mem(opcode),
    ensures
        ({
            let fx = ld_reg_to_mem_effect(old(cpu).reg, opcode, final(cpu).since(*old(cpu)));
            &&& final(cpu).follows(*old(cpu), fx)
            &&& cycles == fx.ops.len() + 1
        }),
        old(cpu).reg.wf() ==> final(cpu).reg.wf(),
{
    if opcode == 0xE0 || opcode == 0xEA || opcode == 0x08 {
        store_at_immediate(cpu, opcode)
    } else {
        store_at_register(cpu, opcode)
    }
}

/// LD (HL),n: three machine cycles.
pub fn ld_cst_to_mem<M: MemoryBus>(cpu: &mut Cpu<M>) -> (cycles: u8)
    ensures
        ({
            let fx = ld_cst_to_mem_effect(old(cpu).reg, final(cpu).since(*old(cpu)));
            &&& final(cpu).follows(*old(cpu), fx)
            &&& cycles == fx.ops.len() + 1
        }),
        old(cpu).reg.wf() ==> final(cpu).reg.wf(),
{
    let constant = cpu.read_byte();
    cpu.mmu.write(cpu.reg.hl(), constant);
    proof {
        lemma_emitted(
            old(cpu).mmu.trace(),
            seq![
                BusEvent::Read { addr: old(cpu).reg.pc, val: constant },
                BusEvent::Write { addr: old(cpu).reg.spec_hl(), val: constant },
            ],
            cpu.mmu.trace(),
        );
    }
    3
}

/// The loads cause machine cycles only, four at most.
pub proof fn lemma_ld_events(r: Registers, opcode: u8, e: Seq<BusEvent>)
    ensures
        instruction_cycles(ld_reg_to_reg_effect(r, opcode, e).ops),
        instruction_cycles(ld_cst_to_reg_effect(r, opcode, e).ops),
        instruction_cycles(ld_cst16_to_reg_effect(r, opcode, e).ops),
        instruction_cycles(ld_mem_to_reg_effect(r, opcode, e).ops),
        instruction_cycles(ld_reg_to_mem_effect(r, opcode, e).ops),
        instruction_cycles(ld_cst_to_mem_effect(r, e).ops),
{
}

/// LD (nn),SP stores SP so that it can be loaded again: the byte written
/// at nn is the low byte of SP, the byte written after it the high byte,
/// and a 16-bit load of those two bytes into SP gives SP back.
pub proof fn lemma_stored_sp_loads_back(r: Registers, e: Seq<BusEvent>)
    ensures
        ({
            let fx = ld_reg_to_mem_effect(r, 0x08, e);
            let nn = word(e[1].value(), e[0].value());
            &&& fx.ops.len() == 4
            &&& fx.ops[2] == BusEvent::Write { addr: nn, val: low_byte(r.sp) }
            &&& fx.ops[3] == BusEvent::Write { addr: nn.wrapping_add(1), val: high_byte(r.sp) }
            &&& fx.reg.sp == r.sp
            &&& word(fx.ops[3].value(), fx.ops[2].value()) == r.sp
            &&& forall|answers: Seq<BusEvent>|
                answers.len() == 2 && answers[0].value() == fx.ops[2].value() && answers[1].value()
                    == fx.ops[3].value() ==> (#[trigger] ld_cst16_to_reg_effect(
                    fx.reg,
                    0x31,
                    answers,
                )).reg.sp == r.sp
        }),
{
}

/// On the memory map, with nn and the address after it in RAM: after
/// LD (nn),SP the word at nn, low byte first, is SP.
pub proof fn lemma_stored_sp_on_ram(m: MmuView, r: Registers, e: Seq<BusEvent>)
    requires
        m.wf(),
        MmuView::is_ram(word(e[1].value(), e[0].value())),
        MmuView::is_ram(word(e[1].value(), e[0].value()).wrapping_add(1)),
    ensures
        ({
            let nn = word(e[1].value(), e[0].value());
            let stored = m.replay(ld_reg_to_mem_effect(r, 0x08, e).ops);
            word(stored.read(nn.wrapping_add(1)), stored.read(nn)) == r.sp
        }),
{
    let nn = word(e[1].value(), e[0].value());
    let ops = ld_reg_to_mem_effect(r, 0x08, e).ops;
    let none = Seq::<BusEvent>::empty();
    assert(ops =~= none.push(ops[0]).push(ops[1]).push(ops[2]).push(ops[3]));
    lemma_replay_push(m, none, ops[0]);
    lemma_replay_push(m, none.push(ops[0]), ops[1]);
    lemma_replay_push(m, none.push(ops[0]).push(ops[1]), ops[2]);
    lemma_replay_push(m, none.push(ops[0]).push(ops[1]).push(ops[2]), ops[3]);
    lemma_ram_keeps_word(m, nn, r.sp);
}

} // verus!
