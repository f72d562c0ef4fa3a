//! The bus between the processor and the rest of the machine, and a small
//! memory map that implements it.

use vstd::prelude::*;
use crate::registers::{high_byte, join, low_byte, lower, upper, word};

verus! {

/// One thing the processor asked of the machine around it.
///
/// `Read`, `Write` and `Internal` each take one machine cycle. `Sample`,
/// `Tick` and `Acknowledge` take none.
#[derive(Clone, Copy, Debug, PartialEq, Eq, Structural)]
pub enum BusEvent {
    /// A read at `addr` that returned `val`.
    Read { addr: u16, val: u8 },
    /// A write of `val` to `addr`.
    Write { addr: u16, val: u8 },
    /// A machine cycle spent inside the processor, with no bus access.
    Internal,
    /// The interrupt lines were looked at; `lines` has one bit for each
    /// line that was raised and enabled.
    Sample { lines: u8 },
    /// The summary, at the end of a step, of the cycles that it took.
    Tick { cycles: u8 },
    /// The request on interrupt line `line` was taken and withdrawn.
    Acknowledge { line: u8 },
}

impl BusEvent {
    /// Whether the event takes a machine cycle.
    pub open spec fn is_cycle(self) -> bool {
        match self {
            BusEvent::Read { .. } => true,
            BusEvent::Write { .. } => true,
            BusEvent::Internal => true,
            _ => false,
        }
    }

    /// The byte that a read returned, a write carried or a sample showed;
    /// zero for the rest.
    pub open spec fn value(self) -> u8 {
        match self {
            BusEvent::Read { val, .. } => val,
            BusEvent::Write { val, .. } => val,
            BusEvent::Sample { lines } => lines,
            _ => 0,
        }
    }
}

/// The events that were added to `before` to reach `after`.
pub open spec fn emitted(before: Seq<BusEvent>, after: Seq<BusEvent>) -> Seq<BusEvent> {
    after.skip(before.len() as int)
}

/// Every event of `events` takes a machine cycle.
pub open spec fn all_cycles(events: Seq<BusEvent>) -> bool {
    forall|i: int| 0 <= i < events.len() ==> (#[trigger] events[i]).is_cycle()
}

/// At most five events, each of which takes a machine cycle: what a single
/// instruction can cause before the next opcode is fetched.
pub open spec fn instruction_cycles(events: Seq<BusEvent>) -> bool {
    all_cycles(events) && events.len() <= 5
}

/// What the processor needs of the machine around it.
///
/// Nothing is asked of an implementation: the processor works with
/// whatever it returns. A device that wants to say more of itself gives
/// `allows` a body, and is then held to it.
pub trait MemoryBus: Sized {
    /// Whether this device, asked `ev`, may answer as `ev` says and be
    /// `after` afterwards. A device that makes no promise allows anything.
    open spec fn allows(&self, ev: BusEvent, after: &Self) -> bool {
        true
    }

    /// One machine cycle: reads the byte at `addr`.
    fn read_byte(&mut self, addr: u16) -> (val: u8)
        ensures
            old(self).allows(BusEvent::Read { addr, val }, final(self)),
    ;

    /// One machine cycle: writes `val` to `addr`.
    fn write_byte(&mut self, addr: u16, val: u8)
        ensures
            old(self).allows(BusEvent::Write { addr, val }, final(self)),
    ;

    /// Tells the bus, at the end of a step, how many machine cycles the
    /// step took. Takes no cycle itself, and may do nothing where the
    /// other methods already keep the time.
    fn tick(&mut self, num_cycles: u8)
        ensures
            old(self).allows(BusEvent::Tick { cycles: num_cycles }, final(self)),
    ;

    /// One machine cycle without a bus access.
    fn tick_internal(&mut self)
        ensures
            old(self).allows(BusEvent::Internal, final(self)),
    ;

    /// Looks at the interrupt lines: bit `i` of the result is set when
    /// line `i` is raised in IF and enabled in IE. Takes no cycle.
    fn pending_interrupts(&self) -> (lines: u8)
        ensures
            self.allows(BusEvent::Sample { lines }, self),
    ;

    /// Withdraws the request on `line`, that is clears its bit in IF.
    /// Takes no cycle.
    fn acknowledge_interrupt(&mut self, line: u8)
        ensures
            old(self).allows(BusEvent::Acknowledge { line }, final(self)),
    ;
}

/// Whether a device can have gone through `states` while it was asked
/// `events`: it starts as `states[0]`, and each event is allowed by the
/// device as it then was and leaves it as the next state.
pub open spec fn chain<M: MemoryBus>(states: Seq<M>, events: Seq<BusEvent>) -> bool {
    &&& states.len() == events.len() + 1
    &&& forall|i: int|
        0 <= i < events.len() ==> (#[trigger] states[i]).allows(events[i], &states[i + 1])
}

/// A chain goes on by one event that the device allows.
pub proof fn lemma_chain_push<M: MemoryBus>(
    states: Seq<M>,
    events: Seq<BusEvent>,
    ev: BusEvent,
    next: M,
)
    requires
        chain(states, events),
        states.last().allows(ev, &next),
    ensures
        chain(states.push(next), events.push(ev)),
        states.push(next)[0] == states[0],
{
    let longer = states.push(next);
    assert forall|i: int| 0 <= i < events.push(ev).len() implies (#[trigger] longer[i]).allows(
        events.push(ev)[i],
        &longer[i + 1],
    ) by {
        if i < events.len() {
            assert(longer[i] == states[i]);
            assert(longer[i + 1] == states[i + 1]);
        }
    }
}

/// The processor's port to a device: it hands every request on and keeps
/// the history of what was asked.
///
/// The device is reached through this port alone, so the history of a
/// verified caller shows exactly which machine cycles it spent, in which
/// order, and what the device answered.
pub struct Bus<M: MemoryBus> {
    device: M,
    history: Ghost<Seq<BusEvent>>,
    snapshots: Ghost<Seq<M>>,
}

impl<M: MemoryBus> Bus<M> {
    /// Everything asked through this port so far, oldest first.
    pub closed spec fn trace(&self) -> Seq<BusEvent> {
        self.history@
    }

    /// The device behind the port.
    pub closed spec fn inner(&self) -> M {
        self.device
    }

    /// The device as it was when the port was made and after each event of
    /// the history.
    pub closed spec fn states(&self) -> Seq<M> {
        self.snapshots@
    }

    /// The device as it was when the port was made.
    pub open spec fn origin(&self) -> M {
        self.states()[0]
    }

    /// The device has come from its origin through `states` by the events
    /// of the history, each of them allowed by the device as it then was.
    pub closed spec fn linked(&self) -> bool {
        chain(self.snapshots@, self.history@) && self.snapshots@.last() == self.device
    }

    /// `self` is the port `before` some requests later: if `before` was
    /// linked to its origin, `self` is linked to the same origin.
    pub open spec fn continues(self, before: Self) -> bool {
        before.linked() ==> self.linked() && self.origin() == before.origin()
    }

    /// What being linked means.
    pub proof fn lemma_linked(self)
        requires
            self.linked(),
        ensures
            chain(self.states(), self.trace()),
            self.states().last() == self.inner(),
    {
    }

    /// A port to `device` through which nothing was asked yet.
    pub fn new(device: M) -> (bus: Self)
        ensures
            bus.trace() == Seq::<BusEvent>::empty(),
            bus.inner() == device,
            bus.origin() == device,
            bus.linked(),
    {
        let ghost start = device;
        Bus { device, history: Ghost(Seq::empty()), snapshots: Ghost(Seq::empty().push(start)) }
    }

    /// The device, to look at.
    pub fn device(&self) -> (device: &M)
        ensures
            *device == self.inner(),
    {
        &self.device
    }

    /// Gives the device back and ends the history.
    pub fn into_device(self) -> (device: M)
        ensures
            device == self.inner(),
    {
        self.device
    }

    /// One machine cycle: reads the byte at `addr`.
    pub fn read(&mut self, addr: u16) -> (val: u8)
        ensures
            final(self).trace() == old(self).trace().push(BusEvent::Read { addr, val }),
            final(self).continues(*old(self)),
    {
        let val = self.device.read_byte(addr);
        proof {
            if old(self).linked() {
                lemma_chain_push(
                    self.snapshots@,
                    self.history@,
                    BusEvent::Read { addr, val },
                    self.device,
                );
            }
        }
        self.history = Ghost(self.history@.push(BusEvent::Read { addr, val }));
        self.snapshots = Ghost(self.snapshots@.push(self.device));
        val
    }

    /// One machine cycle: writes `val` to `addr`.
    pub fn write(&mut self, addr: u16, val: u8)
        ensures
            final(self).trace() == old(self).trace().push(BusEvent::Write { addr, val }),
            final(self).continues(*old(self)),
    {
        self.device.write_byte(addr, val);
        proof {
            if old(self).linked() {
                lemma_chain_push(
                    self.snapshots@,
                    self.history@,
                    BusEvent::Write { addr, val },
                    self.device,
                );
            }
        }
        self.history = Ghost(self.history@.push(BusEvent::Write { addr, val }));
        self.snapshots = Ghost(self.snapshots@.push(self.device));
    }

    /// One machine cycle without a bus access.
    pub fn idle(&mut self)
        ensures
            final(self).trace() == old(self).trace().push(BusEvent::Internal),
            final(self).continues(*old(self)),
    {
        self.device.tick_internal();
        proof {
            if old(self).linked() {
                lemma_chain_push(self.snapshots@, self.history@, BusEvent::Internal, self.device);
            }
        }
        self.history = Ghost(self.history@.push(BusEvent::Internal));
        self.snapshots = Ghost(self.snapshots@.push(self.device));
    }

    /// Looks at the interrupt lines. Takes no cycle.
    pub fn sample(&mut self) -> (lines: u8)
        ensures
            final(self).trace() == old(self).trace().push(BusEvent::Sample { lines }),
            final(self).continues(*old(self)),
    {
        let lines = self.device.pending_interrupts();
        proof {
            if old(self).linked() {
                lemma_chain_push(
                    self.snapshots@,
                    self.history@,
                    BusEvent::Sample { lines },
                    self.device,
                );
            }
        }
        self.history = Ghost(self.history@.push(BusEvent::Sample { lines }));
        self.snapshots = Ghost(self.snapshots@.push(self.device));
        lines
    }

    /// Withdraws the request on `line`. Takes no cycle.
    pub fn acknowledge(&mut self, line: u8)
        ensures
            final(self).trace() == old(self).trace().push(BusEvent::Acknowledge { line }),
            final(self).continues(*old(self)),
    {
        self.device.acknowledge_interrupt(line);
        proof {
            if old(self).linked() {
                lemma_chain_push(
                    self.snapshots@,
                    self.history@,
                    BusEvent::Acknowledge { line },
                    self.device,
                );
            }
        }
        self.history = Ghost(self.history@.push(BusEvent::Acknowledge { line }));
        self.snapshots = Ghost(self.snapshots@.push(self.device));
    }

    /// Reports the cycles of the step that ends. Takes no cycle.
    pub fn tick(&mut self, cycles: u8)
        ensures
            final(self).trace() == old(self).trace().push(BusEvent::Tick { cycles }),
            final(self).continues(*old(self)),
    {
        self.device.tick(cycles);
        proof {
            if old(self).linked() {
                lemma_chain_push(
                    self.snapshots@,
                    self.history@,
                    BusEvent::Tick { cycles },
                    self.device,
                );
            }
        }
        self.history = Ghost(self.history@.push(BusEvent::Tick { cycles }));
        self.snapshots = Ghost(self.snapshots@.push(self.device));
    }
}

/// What `String::from_utf8_lossy` makes of a byte sequence.
pub uninterp spec fn utf8_lossy(bytes: Seq<u8>) -> Seq<char>;

/// Calls `String::from_utf8_lossy` and takes the text as an owned string.
/// The text is a function of the bytes alone; the contract names it and
/// says no more.
#[verifier::external_body]
fn decode_lossy(bytes: &Vec<u8>) -> (text: String)
    ensures
        text@ == utf8_lossy(bytes@),
{
    String::from_utf8_lossy(bytes).into_owned()
}

/// The contents of an [`Mmu`].
pub struct MmuView {
    /// The cartridge image.
    pub rom: Seq<u8>,
    /// Work RAM, 0xC000 to 0xDFFF, echoed at 0xE000 to 0xFDFF.
    pub wram: Seq<u8>,
    /// High RAM, 0xFF80 to 0xFFFE.
    pub hram: Seq<u8>,
    /// Serial data, at 0xFF01.
    pub sb: u8,
    /// Serial control, at 0xFF02.
    pub sc: u8,
    /// Interrupt requests, at 0xFF0F.
    pub if_reg: u8,
    /// Interrupt enables, at 0xFFFF.
    pub ie_reg: u8,
    /// The ROM bank visible at 0x4000 to 0x7FFF.
    pub rom_bank: nat,
    /// The bytes sent over the serial port so far.
    pub serial_output: Seq<u8>,
}

impl MmuView {
    /// Work RAM holds 0x2000 bytes and high RAM 0x7F.
    pub open spec fn wf(self) -> bool {
        &&& self.wram.len() == 0x2000
        &&& self.hram.len() == 0x7F
    }

    /// The byte of the cartridge image at offset `i`, 0xFF past its end.
    pub open spec fn rom_at(self, i: int) -> u8 {
        if 0 <= i < self.rom.len() {
            self.rom[i]
        } else {
            0xFF
        }
    }

    /// The byte that a read at `addr` returns: the fixed ROM bank below
    /// 0x4000, the selected bank below 0x8000, work RAM from 0xC000 and its
    /// echo from 0xE000, the serial data and control registers at 0xFF01
    /// and 0xFF02, IF at 0xFF0F, high RAM from 0xFF80, IE at 0xFFFF, and
    /// 0xFF everywhere else.
    pub open spec fn read(self, addr: u16) -> u8 {
        if addr < 0x4000 {
            self.rom_at(addr as int)
        } else if addr < 0x8000 {
            self.rom_at(self.rom_bank * 0x4000 + (addr - 0x4000))
        } else if addr < 0xC000 {
            0xFF
        } else if addr < 0xE000 {
            self.wram[addr - 0xC000]
        } else if addr < 0xFE00 {
            self.wram[addr - 0xE000]
        } else if addr < 0xFF00 {
            0xFF
        } else if addr == 0xFF01 {
            self.sb
        } else if addr == 0xFF02 {
            self.sc
        } else if addr == 0xFF0F {
            self.if_reg
        } else if addr < 0xFF80 {
            0xFF
        } else if addr < 0xFFFF {
            self.hram[addr - 0xFF80]
        } else {
            self.ie_reg
        }
    }

    /// The contents after a write of `val` to `addr`. A write from 0x2000
    /// to 0x3FFF selects the ROM bank by the five low bits of `val`, bank 1
    /// where they are zero. A write to the serial control register with bit
    /// 7 set sends the serial data byte and stores `val` with bit 7 clear.
    /// RAM and the other registers take `val`; the rest ignores it.
    pub open spec fn write(self, addr: u16, val: u8) -> MmuView {
        if addr < 0x2000 {
            self
        } else if addr < 0x4000 {
            MmuView { rom_bank: if val & 0x1F == 0 { 1 } else { (val & 0x1F) as nat }, ..self }
        } else if addr < 0xC000 {
            self
        } else if addr < 0xE000 {
            MmuView { wram: self.wram.update(addr - 0xC000, val), ..self }
        } else if addr < 0xFE00 {
            MmuView { wram: self.wram.update(addr - 0xE000, val), ..self }
        } else if addr < 0xFF00 {
            self
        } else if addr == 0xFF01 {
            MmuView { sb: val, ..self }
        } else if addr == 0xFF02 {
            if val & 0x80 != 0 {
                MmuView { sc: val & 0x7F, serial_output: self.serial_output.push(self.sb), ..self }
            } else {
                MmuView { sc: val, ..self }
            }
        } else if addr == 0xFF0F {
            MmuView { if_reg: val, ..self }
        } else if addr < 0xFF80 {
            self
        } else if addr < 0xFFFF {
            MmuView { hram: self.hram.update(addr - 0xFF80, val), ..self }
        } else {
            MmuView { ie_reg: val, ..self }
        }
    }

    /// Whether `addr` is backed by work RAM, its echo, or high RAM.
    pub open spec fn is_ram(addr: u16) -> bool {
        0xC000 <= addr < 0xFE00 || 0xFF80 <= addr < 0xFFFF
    }

    /// Whether the map, asked `ev`, answers as `ev` says: a read returns
    /// the byte at its address, a sample shows the lines that are raised
    /// and enabled.
    pub open spec fn answers(self, ev: BusEvent) -> bool {
        match ev {
            BusEvent::Read { addr, val } => val == self.read(addr),
            BusEvent::Sample { lines } => lines == self.ie_reg & self.if_reg,
            _ => true,
        }
    }

    /// The contents after `ev`: a write stores, an acknowledgement clears
    /// the line's bit in IF, the rest changes nothing.
    pub open spec fn after(self, ev: BusEvent) -> MmuView {
        match ev {
            BusEvent::Write { addr, val } => self.write(addr, val),
            BusEvent::Acknowledge { line } => MmuView {
                if_reg: self.if_reg & !(1u8 << (line % 8)),
                ..self
            },
            _ => self,
        }
    }

    /// The contents after `events`, in order.
    pub open spec fn replay(self, events: Seq<BusEvent>) -> MmuView
        decreases events.len(),
    {
        if events.len() == 0 {
            self
        } else {
            self.replay(events.drop_last()).after(events.last())
        }
    }

    /// Whether every event of `events` is answered by the map as it is at
    /// that point.
    pub open spec fn answered(self, events: Seq<BusEvent>) -> bool
        decreases events.len(),
    {
        events.len() == 0 || (self.answered(events.drop_last()) && self.replay(
            events.drop_last(),
        ).answers(events.last()))
    }
}

/// A memory map with a banked cartridge image, work RAM and its echo, high
/// RAM, the serial port and the two interrupt registers. Everything else
/// reads as 0xFF and ignores writes.
pub struct Mmu {
    rom: Vec<u8>,
    wram: [u8; 0x2000],
    hram: [u8; 0x7F],
    sb: u8,
    sc: u8,
    if_reg: u8,
    ie_reg: u8,
    rom_bank: u8,
    serial_output: Vec<u8>,
}

impl View for Mmu {
    type V = MmuView;

    closed spec fn view(&self) -> MmuView {
        MmuView {
            rom: self.rom@,
            wram: self.wram@,
            hram: self.hram@,
            sb: self.sb,
            sc: self.sc,
            if_reg: self.if_reg,
            ie_reg: self.ie_reg,
            rom_bank: self.rom_bank as nat,
            serial_output: self.serial_output@,
        }
    }
}

impl Mmu {
    /// A map around the cartridge image `rom`: RAM and registers zero,
    /// bank 1 selected, nothing sent and nothing asked yet.
    pub fn new(rom: Vec<u8>) -> (mmu: Self)
        ensures
            mmu@ == (MmuView {
                rom: rom@,
                wram: Seq::new(0x2000, |i: int| 0u8),
                hram: Seq::new(0x7F, |i: int| 0u8),
                sb: 0,
                sc: 0,
                if_reg: 0,
                ie_reg: 0,
                rom_bank: 1,
                serial_output: Seq::empty(),
            }),
            mmu@.wf(),
    {
        let mmu = Self {
            rom,
            wram: [0;0x2000],
            hram: [0;0x7F],
            sb: 0,
            sc: 0,
            if_reg: 0,
            ie_reg: 0,
            rom_bank: 1,
            serial_output: Vec::new(),
        };
        assert(mmu.wram@ =~= Seq::new(0x2000, |i: int| 0u8));
        assert(mmu.hram@ =~= Seq::new(0x7F, |i: int| 0u8));
        mmu
    }

    /// The bytes sent over the serial port so far, as text.
    pub fn get_serial_output(&self) -> (text: String)
        ensures
            text@ == utf8_lossy(self@.serial_output),
    {
        decode_lossy(&self.serial_output)
    }

    fn rom_byte(&self, i: usize) -> (val: u8)
        ensures
            val == self@.rom_at(i as int),
    {
        if i < self.rom.len() {
            self.rom[i]
        } else {
            0xFF
        }
    }

    /// The byte at `addr`, without spending a machine cycle.
    pub fn peek(&self, addr: u16) -> (val: u8)
        ensures
            val == self@.read(addr),
            self@.wf(),
    {
        if addr < 0x4000 {
            self.rom_byte(addr as usize)
        } else if addr < 0x8000 {
            self.rom_byte((self.rom_bank as usize) * 0x4000 + ((addr as usize) - 0x4000))
        } else if addr < 0xC000 {
            0xFF
        } else if addr < 0xE000 {
            self.wram[(addr - 0xC000) as usize]
        } else if addr < 0xFE00 {
            self.wram[(addr - 0xE000) as usize]
        } else if addr < 0xFF00 {
            0xFF
        } else if addr == 0xFF01 {
            self.sb
        } else if addr == 0xFF02 {
            self.sc
        } else if addr == 0xFF0F {
            self.if_reg
        } else if addr < 0xFF80 {
            0xFF
        } else if addr < 0xFFFF {
            self.hram[(addr - 0xFF80) as usize]
        } else {
            self.ie_reg
        }
    }

    /// The 16-bit value at `addr`: its low byte at `addr`, its high byte at
    /// the address after it.
    pub fn read_word(&self, addr: u16) -> (w: u16)
        ensures
            w == word(self@.read(addr.wrapping_add(1)), self@.read(addr)),
    {
        let lo = self.peek(addr);
        let hi = self.peek(addr.wrapping_add(1));
        join(hi, lo)
    }

    /// Stores `val` at `addr`, low byte first, as two writes.
    pub fn write_word(&mut self, addr: u16, val: u16)
        ensures
            final(self)@ == old(self)@.write(addr, low_byte(val)).write(
                addr.wrapping_add(1),
                high_byte(val),
            ),
    {
        self.write_byte(addr, lower(val));
        self.write_byte(addr.wrapping_add(1), upper(val));
    }
}

impl MemoryBus for Mmu {
    /// The map answers by its contents and changes as `MmuView::after`
    /// says.
    open spec fn allows(&self, ev: BusEvent, after: &Self) -> bool {
        self@.answers(ev) && after@ == self@.after(ev)
    }

    fn read_byte(&mut self, addr: u16) -> (val: u8)
        ensures
            val == old(self)@.read(addr),
            final(self)@ == old(self)@,
            final(self)@.wf(),
    {
        self.peek(addr)
    }

    fn write_byte(&mut self, addr: u16, val: u8)
        ensures
            final(self)@ == old(self)@.write(addr, val),
            final(self)@.wf(),
    {
        if addr < 0x2000 {
        } else if addr < 0x4000 {
            let bank = val & 0x1F;
            self.rom_bank = if bank == 0 { 1 } else { bank };
        } else if addr < 0xC000 {
        } else if addr < 0xE000 {
            self.wram[(addr - 0xC000) as usize] = val;
        } else if addr < 0xFE00 {
            self.wram[(addr - 0xE000) as usize] = val;
        } else if addr < 0xFF00 {
        } else if addr == 0xFF01 {
            self.sb = val;
        } else if addr == 0xFF02 {
            if val & 0x80 != 0 {
                self.serial_output.push(self.sb);
                self.sc = val & 0x7F;
            } else {
                self.sc = val;
            }
        } else if addr == 0xFF0F {
            self.if_reg = val;
        } else if addr < 0xFF80 {
        } else if addr < 0xFFFF {
            self.hram[(addr - 0xFF80) as usize] = val;
        } else {
            self.ie_reg = val;
        }
    }

    fn tick(&mut self, num_cycles: u8)
        ensures
            final(self)@ == old(self)@,
    {
    }

    fn tick_internal(&mut self)
        ensures
            final(self)@ == old(self)@,
    {
    }

    fn pending_interrupts(&self) -> (lines: u8)
        ensures
            lines == self@.ie_reg & self@.if_reg,
    {
        self.ie_reg & self.if_reg
    }

    fn acknowledge_interrupt(&mut self, line: u8)
        ensures
            final(self)@ == (MmuView {
                if_reg: old(self)@.if_reg & !(1u8 << (line % 8)),
                ..old(self)@
            }),
    {
        self.if_reg = self.if_reg & !(1u8 << (line % 8));
    }
}

/// A byte stored in RAM is the byte read back from there.
pub proof fn lemma_ram_keeps(m: MmuView, addr: u16, val: u8)
    requires
        m.wf(),
        MmuView::is_ram(addr),
    ensures
        m.write(addr, val).read(addr) == val,
        m.write(addr, val).wf(),
{
}

/// Replaying one more event is replaying the others and then that one.
pub proof fn lemma_replay_push(m: MmuView, events: Seq<BusEvent>, ev: BusEvent)
    ensures
        m.replay(events.push(ev)) == m.replay(events).after(ev),
        m.answered(events.push(ev)) == (m.answered(events) && m.replay(events).answers(ev)),
{
    assert(events.push(ev).drop_last() =~= events);
    assert(events.push(ev).last() == ev);
}

/// Replaying two stretches of events is replaying the first and then the
/// second, and both are answered exactly when each is.
pub proof fn lemma_replay_concat(m: MmuView, first: Seq<BusEvent>, second: Seq<BusEvent>)
    ensures
        m.replay(first + second) == m.replay(first).replay(second),
        m.answered(first + second) == (m.answered(first) && m.replay(first).answered(second)),
    decreases second.len(),
{
    if second.len() == 0 {
        assert(first + second =~= first);
    } else {
        lemma_replay_concat(m, first, second.drop_last());
        assert((first + second).drop_last() =~= first + second.drop_last());
        assert((first + second).last() == second.last());
    }
}

/// Along a chain of states of the memory map, the state after the first
/// `n` events holds what replaying them from the first state gives, and
/// each of them was answered by the contents of its time.
pub proof fn lemma_chain_replays(states: Seq<Mmu>, events: Seq<BusEvent>, n: int)
    requires
        chain(states, events),
        0 <= n <= events.len(),
    ensures
        states[n]@ == states[0]@.replay(events.take(n)),
        states[0]@.answered(events.take(n)),
    decreases n,
{
    if n == 0 {
        assert(events.take(0).len() == 0);
    } else {
        lemma_chain_replays(states, events, n - 1);
        assert(events.take(n).drop_last() =~= events.take(n - 1));
        assert(events.take(n).last() == events[n - 1]);
        assert(states[n - 1].allows(events[n - 1], &states[n]));
    }
}

/// Behind a port, the memory map holds what its history says: from one
/// point of the history to a later one the contents change as replaying
/// the events between them tells, and each of those events was answered
/// by the contents of its time.
pub proof fn lemma_history_replays(before: Bus<Mmu>, after: Bus<Mmu>, ops: Seq<BusEvent>)
    requires
        before.linked(),
        after.continues(before),
        after.trace() == before.trace() + ops,
    ensures
        after.inner()@ == before.inner()@.replay(ops),
        before.inner()@.answered(ops),
{
    let origin = before.origin()@;
    before.lemma_linked();
    after.lemma_linked();
    lemma_chain_replays(before.states(), before.trace(), before.trace().len() as int);
    lemma_chain_replays(after.states(), after.trace(), after.trace().len() as int);
    assert(before.trace().take(before.trace().len() as int) =~= before.trace());
    assert(after.trace().take(after.trace().len() as int) =~= after.trace());
    lemma_replay_concat(origin, before.trace(), ops);
}

/// A word stored in RAM, low byte first, is the word read back from there.
pub proof fn lemma_ram_keeps_word(m: MmuView, addr: u16, w: u16)
    requires
        m.wf(),
        MmuView::is_ram(addr),
        MmuView::is_ram(addr.wrapping_add(1)),
    ensures
        ({
            let after = m.write(addr, low_byte(w)).write(addr.wrapping_add(1), high_byte(w));
            word(after.read(addr.wrapping_add(1)), after.read(addr)) == w
        }),
{
}

} // verus!
