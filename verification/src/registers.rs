//! The register file: eight 8-bit registers, the stack pointer and the
//! program counter, with the four condition flags packed into the high
//! nibble of F.

use vstd::prelude::*;

verus! {

/// The condition flags held in F.
#[derive(Clone, Copy, Debug, PartialEq, Eq, Structural)]
pub enum CpuFlag {
    /// Carry: bit 4 of F.
    C,
    /// Half carry: bit 5 of F.
    H,
    /// Subtract: bit 6 of F.
    N,
    /// Zero: bit 7 of F.
    Z,
}

impl CpuFlag {
    /// The bit of F that holds this flag.
    pub open spec fn bit_mask(self) -> u8 {
        match self {
            CpuFlag::C => 0x10,
            CpuFlag::H => 0x20,
            CpuFlag::N => 0x40,
            CpuFlag::Z => 0x80,
        }
    }

    /// The bit of F that holds this flag.
    #[verifier::when_used_as_spec(bit_mask)]
    pub fn mask(self) -> (m: u8)
        ensures
            m == self.bit_mask(),
    {
        match self {
            CpuFlag::C => 0x10,
            CpuFlag::H => 0x20,
            CpuFlag::N => 0x40,
            CpuFlag::Z => 0x80,
        }
    }
}

/// The seven 8-bit registers an instruction can name directly.
#[derive(Clone, Copy, Debug, PartialEq, Eq, Structural)]
pub enum Reg8 {
    B,
    C,
    D,
    E,
    H,
    L,
    A,
}

/// The 16-bit registers an instruction can name: three pairs and SP.
#[derive(Clone, Copy, Debug, PartialEq, Eq, Structural)]
pub enum Reg16 {
    BC,
    DE,
    HL,
    SP,
}

/// The 16-bit value whose most significant byte is `hi`.
pub open spec fn word(hi: u8, lo: u8) -> u16 {
    (hi as int * 256 + lo as int) as u16
}

/// The most significant byte of `w`.
pub open spec fn high_byte(w: u16) -> u8 {
    (w / 256) as u8
}

/// The least significant byte of `w`.
pub open spec fn low_byte(w: u16) -> u8 {
    (w % 256) as u8
}

/// The value of an offset byte read as a two's complement number.
pub open spec fn signed(e: u8) -> int {
    if e < 128 {
        e as int
    } else {
        e as int - 256
    }
}

/// `base` moved by the signed offset `e`, modulo 2^16.
pub open spec fn displaced(base: u16, e: u8) -> u16 {
    ((base as int + signed(e)) % 0x1_0000) as u16
}

/// F as it stands when the four flags have the given values: Z counts 128,
/// N 64, H 32 and C 16.
pub open spec fn flag_bits(z: bool, n: bool, h: bool, c: bool) -> u8 {
    ((if z { 0x80int } else { 0int }) + (if n { 0x40int } else { 0int }) + (if h { 0x20int } else {
        0int
    }) + (if c { 0x10int } else { 0int })) as u8
}

/// Whether `flag` is set in the flag byte `f`.
pub open spec fn flag_of(f: u8, flag: CpuFlag) -> bool {
    f & flag.bit_mask() != 0
}

/// The flag byte `f` with `flag` set to `on` and the other bits kept.
pub open spec fn with_flag(f: u8, flag: CpuFlag, on: bool) -> u8 {
    if on {
        f | flag.bit_mask()
    } else {
        f & !flag.bit_mask()
    }
}

/// Whether `a + b` carries out of bit 3.
pub open spec fn half_carry_add8(a: u8, b: u8) -> bool {
    ((a & 0x0F) + (b & 0x0F)) > 0x0F
}

/// Whether `a + b` carries out of bit 7.
pub open spec fn carry_add8(a: u8, b: u8) -> bool {
    a + b > 0xFF
}

/// Whether `a - b` borrows from bit 4.
pub open spec fn half_carry_sub8(a: u8, b: u8) -> bool {
    (a & 0x0F) < (b & 0x0F)
}

/// Whether `a - b` borrows.
pub open spec fn carry_sub8(a: u8, b: u8) -> bool {
    a < b
}

/// The carry flag as a number.
pub open spec fn carry_in(cy: bool) -> int {
    if cy {
        1
    } else {
        0
    }
}

/// Whether `a + b + cy` carries out of bit 3.
pub open spec fn half_carry_adc8(a: u8, b: u8, cy: bool) -> bool {
    ((a & 0x0F) + (b & 0x0F) + carry_in(cy)) > 0x0F
}

/// Whether `a + b + cy` carries out of bit 7.
pub open spec fn carry_adc8(a: u8, b: u8, cy: bool) -> bool {
    a + b + carry_in(cy) > 0xFF
}

/// Whether `a - b - cy` borrows from bit 4.
pub open spec fn half_carry_sbc8(a: u8, b: u8, cy: bool) -> bool {
    (a & 0x0F) < ((b & 0x0F) + carry_in(cy))
}

/// Whether `a - b - cy` borrows.
pub open spec fn carry_sbc8(a: u8, b: u8, cy: bool) -> bool {
    a < b + carry_in(cy)
}

/// Whether `a + b` carries out of bit 11.
pub open spec fn half_carry_add16(a: u16, b: u16) -> bool {
    ((a & 0x0FFF) + (b & 0x0FFF)) > 0x0FFF
}

/// Whether `a + b` carries out of bit 15.
pub open spec fn carry_add16(a: u16, b: u16) -> bool {
    a + b > 0xFFFF
}

/// A low nibble is at most 15, and twelve low bits at most 4095.
pub proof fn lemma_nibble_bounds(a: u8, w: u16)
    ensures
        a & 0x0F <= 0x0F,
        w & 0x0FFF <= 0x0FFF,
{
    assert(a & 0x0F <= 0x0F) by (bit_vector);
    assert(w & 0x0FFF <= 0x0FFF) by (bit_vector);
}

/// Reading a flag out of `flag_bits` gives back the value that went in, and
/// the low nibble of `flag_bits` is zero.
pub proof fn lemma_flag_bits(z: bool, n: bool, h: bool, c: bool)
    ensures
        flag_of(flag_bits(z, n, h, c), CpuFlag::Z) == z,
        flag_of(flag_bits(z, n, h, c), CpuFlag::N) == n,
        flag_of(flag_bits(z, n, h, c), CpuFlag::H) == h,
        flag_of(flag_bits(z, n, h, c), CpuFlag::C) == c,
        flag_bits(z, n, h, c) & 0x0F == 0,
{
    let zb: u8 = if z { 0x80u8 } else { 0u8 };
    let nb: u8 = if n { 0x40u8 } else { 0u8 };
    let hb: u8 = if h { 0x20u8 } else { 0u8 };
    let cb: u8 = if c { 0x10u8 } else { 0u8 };
    let f: u8 = flag_bits(z, n, h, c);
    assert(f == zb + nb + hb + cb);
    assert((zb == 0x80 || zb == 0) && (nb == 0x40 || nb == 0) && (hb == 0x20 || hb == 0) && (cb
        == 0x10 || cb == 0) && f == zb + nb + hb + cb ==> ((f & 0x80 != 0) == (zb == 0x80)) && ((f
        & 0x40 != 0) == (nb == 0x40)) && ((f & 0x20 != 0) == (hb == 0x20)) && ((f & 0x10 != 0) == (cb
        == 0x10)) && (f & 0x0F == 0)) by (bit_vector);
}

/// Whatever four values are packed, each flag reads back as it went in and
/// the low nibble is zero.
pub proof fn lemma_flag_bits_all()
    ensures
        forall|z: bool, n: bool, h: bool, c: bool|
            #![trigger flag_bits(z, n, h, c)]
            {
                &&& flag_of(flag_bits(z, n, h, c), CpuFlag::Z) == z
                &&& flag_of(flag_bits(z, n, h, c), CpuFlag::N) == n
                &&& flag_of(flag_bits(z, n, h, c), CpuFlag::H) == h
                &&& flag_of(flag_bits(z, n, h, c), CpuFlag::C) == c
                &&& flag_bits(z, n, h, c) & 0x0F == 0
            },
{
    assert forall|z: bool, n: bool, h: bool, c: bool|
        #![trigger flag_bits(z, n, h, c)]
        {
            &&& flag_of(flag_bits(z, n, h, c), CpuFlag::Z) == z
            &&& flag_of(flag_bits(z, n, h, c), CpuFlag::N) == n
            &&& flag_of(flag_bits(z, n, h, c), CpuFlag::H) == h
            &&& flag_of(flag_bits(z, n, h, c), CpuFlag::C) == c
            &&& flag_bits(z, n, h, c) & 0x0F == 0
        } by {
        lemma_flag_bits(z, n, h, c);
    }
}

/// The two bytes of a word make the word again, and a word made of two
/// bytes falls back into them.
pub proof fn lemma_word_bytes(w: u16, hi: u8, lo: u8)
    ensures
        word(high_byte(w), low_byte(w)) == w,
        high_byte(word(hi, lo)) == hi,
        low_byte(word(hi, lo)) == lo,
{
}

/// Setting one flag changes that flag alone and keeps the low nibble.
pub proof fn lemma_with_flag(f: u8, flag: CpuFlag, on: bool, other: CpuFlag)
    ensures
        flag_of(with_flag(f, flag, on), other) == (if other == flag { on } else { flag_of(f, other) }),
        f & 0x0F == 0 ==> with_flag(f, flag, on) & 0x0F == 0,
{
    let m = flag.bit_mask();
    let k = other.bit_mask();
    assert((m == 0x10 || m == 0x20 || m == 0x40 || m == 0x80) && (k == 0x10 || k == 0x20 || k == 0x40
        || k == 0x80) ==> (((f | m) & k != 0) == (k == m || f & k != 0)) && (((f & !m) & k != 0) == (
    k != m && f & k != 0)) && (f & 0x0F == 0 ==> (f | m) & 0x0F == 0 && (f & !m) & 0x0F == 0))
        by (bit_vector);
}

/// The register file.
#[derive(Clone, Copy, Debug, PartialEq, Eq, Structural)]
pub struct Registers {
    pub a: u8,
    pub b: u8,
    pub c: u8,
    pub d: u8,
    pub e: u8,
    pub h: u8,
    pub l: u8,
    /// The flag register: Z, N, H, C in bits 7 to 4, the low nibble zero.
    pub f: u8,
    /// The stack pointer: the address of the last byte pushed.
    pub sp: u16,
    /// The program counter: the address of the next byte to fetch.
    pub pc: u16,
}

impl Registers {
    /// The low nibble of F is zero.
    pub open spec fn wf(&self) -> bool {
        self.f & 0x0F == 0
    }

    /// The state in which the boot ROM hands over.
    pub open spec fn power_on() -> Registers {
        Registers {
            a: 0x01,
            b: 0x00,
            c: 0x13,
            d: 0x00,
            e: 0xD8,
            h: 0x01,
            l: 0x4D,
            f: 0xB0,
            sp: 0xFFFE,
            pc: 0x0100,
        }
    }

    /// Whether `flag` is set.
    pub open spec fn flag(&self, flag: CpuFlag) -> bool {
        flag_of(self.f, flag)
    }

    /// The pair AF: A is its high byte.
    pub open spec fn spec_af(&self) -> u16 {
        word(self.a, self.f)
    }

    /// The pair BC: B is its high byte.
    pub open spec fn spec_bc(&self) -> u16 {
        word(self.b, self.c)
    }

    /// The pair DE: D is its high byte.
    pub open spec fn spec_de(&self) -> u16 {
        word(self.d, self.e)
    }

    /// The pair HL: H is its high byte.
    pub open spec fn spec_hl(&self) -> u16 {
        word(self.h, self.l)
    }

    /// The registers with `val` in AF; the low nibble of F is zero whatever
    /// `val` holds.
    pub open spec fn with_af(self, val: u16) -> Registers {
        Registers { a: high_byte(val), f: low_byte(val) & 0xF0, ..self }
    }

    /// The registers with `val` in BC.
    pub open spec fn with_bc(self, val: u16) -> Registers {
        Registers { b: high_byte(val), c: low_byte(val), ..self }
    }

    /// The registers with `val` in DE.
    pub open spec fn with_de(self, val: u16) -> Registers {
        Registers { d: high_byte(val), e: low_byte(val), ..self }
    }

    /// The registers with `val` in HL.
    pub open spec fn with_hl(self, val: u16) -> Registers {
        Registers { h: high_byte(val), l: low_byte(val), ..self }
    }

    /// The registers with the four flags as given and the low nibble of F
    /// zero.
    pub open spec fn with_flags(self, z: bool, n: bool, h: bool, c: bool) -> Registers {
        Registers { f: flag_bits(z, n, h, c), ..self }
    }

    /// The value of the register `r`.
    pub open spec fn spec_get8(&self, r: Reg8) -> u8 {
        match r {
            Reg8::B => self.b,
            Reg8::C => self.c,
            Reg8::D => self.d,
            Reg8::E => self.e,
            Reg8::H => self.h,
            Reg8::L => self.l,
            Reg8::A => self.a,
        }
    }

    /// The registers with `val` in the register `r`.
    pub open spec fn with8(self, r: Reg8, val: u8) -> Registers {
        match r {
            Reg8::B => Registers { b: val, ..self },
            Reg8::C => Registers { c: val, ..self },
            Reg8::D => Registers { d: val, ..self },
            Reg8::E => Registers { e: val, ..self },
            Reg8::H => Registers { h: val, ..self },
            Reg8::L => Registers { l: val, ..self },
            Reg8::A => Registers { a: val, ..self },
        }
    }

    /// The value of the 16-bit register `r`.
    pub open spec fn spec_get16(&self, r: Reg16) -> u16 {
        match r {
            Reg16::BC => self.spec_bc(),
            Reg16::DE => self.spec_de(),
            Reg16::HL => self.spec_hl(),
            Reg16::SP => self.sp,
        }
    }

    /// The registers with `val` in the 16-bit register `r`.
    pub open spec fn with16(self, r: Reg16, val: u16) -> Registers {
        match r {
            Reg16::BC => self.with_bc(val),
            Reg16::DE => self.with_de(val),
            Reg16::HL => self.with_hl(val),
            Reg16::SP => Registers { sp: val, ..self },
        }
    }

    /// The registers as the boot ROM leaves them.
    pub fn new() -> (r: Self)
        ensures
            r == Self::power_on(),
            r.wf(),
    {
        proof {
            assert(0xB0u8 & 0x0F == 0) by (bit_vector);
        }
        Self {
            a: 0x01,
            b: 0x00,
            c: 0x13,
            d: 0x00,
            e: 0xD8,
            h: 0x01,
            l: 0x4D,
            f: 0xB0,
            sp: 0xFFFE,
            pc: 0x0100,
        }
    }

    /// The pair AF.
    #[verifier::when_used_as_spec(spec_af)]
    pub fn af(&self) -> (w: u16)
        ensures
            w == self.spec_af(),
    {
        join(self.a, self.f)
    }

    /// Loads A and F from `val`; the low nibble of F reads as zero whatever
    /// `val` holds.
    pub fn set_af(&mut self, val: u16)
        ensures
            *final(self) == old(self).with_af(val),
            final(self).wf(),
    {
        self.a = upper(val);
        self.f = lower(val) & 0xF0;
        proof {
            let x = lower(val);
            assert((x & 0xF0) & 0x0F == 0) by (bit_vector);
        }
    }

    /// The pair BC.
    #[verifier::when_used_as_spec(spec_bc)]
    pub fn bc(&self) -> (w: u16)
        ensures
            w == self.spec_bc(),
    {
        join(self.b, self.c)
    }

    /// Loads B from the high byte of `val` and C from its low byte.
    pub fn set_bc(&mut self, val: u16)
        ensures
            *final(self) == old(self).with_bc(val),
    {
        self.b = upper(val);
        self.c = lower(val);
    }

    /// The pair DE.
    #[verifier::when_used_as_spec(spec_de)]
    pub fn de(&self) -> (w: u16)
        ensures
            w == self.spec_de(),
    {
        join(self.d, self.e)
    }

    /// Loads D from the high byte of `val` and E from its low byte.
    pub fn set_de(&mut self, val: u16)
        ensures
            *final(self) == old(self).with_de(val),
    {
        self.d = upper(val);
        self.e = lower(val);
    }

    /// The pair HL.
    #[verifier::when_used_as_spec(spec_hl)]
    pub fn hl(&self) -> (w: u16)
        ensures
            w == self.spec_hl(),
    {
        join(self.h, self.l)
    }

    /// Loads H from the high byte of `val` and L from its low byte.
    pub fn set_hl(&mut self, val: u16)
        ensures
            *final(self) == old(self).with_hl(val),
    {
        self.h = upper(val);
        self.l = lower(val);
    }

    /// Clears Z, N, H and C.
    pub fn clear_flags(&mut self)
        ensures
            *final(self) == old(self).with_flags(false, false, false, false),
            final(self).f == 0,
            final(self).wf(),
    {
        self.f = 0;
        proof {
            lemma_flag_bits(false, false, false, false);
        }
    }

    /// Whether `flag` is set.
    #[verifier::when_used_as_spec(flag)]
    pub fn get_flag(&self, flag: CpuFlag) -> (on: bool)
        ensures
            on == self.flag(flag),
    {
        (self.f & flag.mask()) != 0
    }

    /// Sets or clears one flag; the other flags and the low nibble stay.
    pub fn set_flag(&mut self, flag: CpuFlag, condition: bool)
        ensures
            *final(self) == (Registers { f: with_flag(old(self).f, flag, condition), ..*old(self) }),
            final(self).flag(flag) == condition,
            forall|other: CpuFlag| other != flag ==> final(self).flag(other) == old(self).flag(other),
            old(self).wf() ==> final(self).wf(),
    {
        proof {
            lemma_with_flag(self.f, flag, condition, CpuFlag::Z);
            lemma_with_flag(self.f, flag, condition, CpuFlag::N);
            lemma_with_flag(self.f, flag, condition, CpuFlag::H);
            lemma_with_flag(self.f, flag, condition, CpuFlag::C);
        }
        if condition {
            self.f = self.f | flag.mask();
        } else {
            self.f = self.f & !flag.mask();
        }
    }

    /// Writes all four flags at once.
    pub fn set_flags(&mut self, z: bool, n: bool, h: bool, c: bool)
        ensures
            *final(self) == old(self).with_flags(z, n, h, c),
            final(self).wf(),
    {
        proof {
            lemma_flag_bits(z, n, h, c);
        }
        let zb: u8 = if z { 0x80 } else { 0 };
        let nb: u8 = if n { 0x40 } else { 0 };
        let hb: u8 = if h { 0x20 } else { 0 };
        let cb: u8 = if c { 0x10 } else { 0 };
        self.f = zb + nb + hb + cb;
    }

    /// The value of the register `r`.
    #[verifier::when_used_as_spec(spec_get8)]
    pub fn get8(&self, r: Reg8) -> (val: u8)
        ensures
            val == self.spec_get8(r),
    {
        match r {
            Reg8::B => self.b,
            Reg8::C => self.c,
            Reg8::D => self.d,
            Reg8::E => self.e,
            Reg8::H => self.h,
            Reg8::L => self.l,
            Reg8::A => self.a,
        }
    }

    /// Loads the register `r` with `val`.
    pub fn set8(&mut self, r: Reg8, val: u8)
        ensures
            *final(self) == old(self).with8(r, val),
    {
        match r {
            Reg8::B => self.b = val,
            Reg8::C => self.c = val,
            Reg8::D => self.d = val,
            Reg8::E => self.e = val,
            Reg8::H => self.h = val,
            Reg8::L => self.l = val,
            Reg8::A => self.a = val,
        }
    }

    /// The value of the 16-bit register `r`.
    #[verifier::when_used_as_spec(spec_get16)]
    pub fn get16(&self, r: Reg16) -> (val: u16)
        ensures
            val == self.spec_get16(r),
    {
        match r {
            Reg16::BC => self.bc(),
            Reg16::DE => self.de(),
            Reg16::HL => self.hl(),
            Reg16::SP => self.sp,
        }
    }

    /// Loads the 16-bit register `r` with `val`.
    pub fn set16(&mut self, r: Reg16, val: u16)
        ensures
            *final(self) == old(self).with16(r, val),
    {
        match r {
            Reg16::BC => self.set_bc(val),
            Reg16::DE => self.set_de(val),
            Reg16::HL => self.set_hl(val),
            Reg16::SP => self.sp = val,
        }
    }
}

/// Joins two bytes into a 16-bit value, `hi` first.
#[verifier::when_used_as_spec(word)]
pub fn join(hi: u8, lo: u8) -> (w: u16)
    ensures
        w == word(hi, lo),
{
    (hi as u16) * 256 + (lo as u16)
}

/// The most significant byte of `w`.
#[verifier::when_used_as_spec(high_byte)]
pub fn upper(w: u16) -> (b: u8)
    ensures
        b == high_byte(w),
{
    (w / 256) as u8
}

/// The least significant byte of `w`.
#[verifier::when_used_as_spec(low_byte)]
pub fn lower(w: u16) -> (b: u8)
    ensures
        b == low_byte(w),
{
    (w % 256) as u8
}

/// Adds the offset byte `e`, read as a signed number, to `base`, wrapping.
#[verifier::when_used_as_spec(displaced)]
pub fn displace(base: u16, e: u8) -> (w: u16)
    ensures
        w == displaced(base, e),
{
    if e < 128 {
        base.wrapping_add(e as u16)
    } else {
        base.wrapping_sub(256 - (e as u16))
    }
}

/// Whether `a + b` carries out of bit 7.
#[verifier::when_used_as_spec(carry_add8)]
pub fn add8_needs_carry(a: u8, b: u8) -> (r: bool)
    ensures
        r == carry_add8(a, b),
{
    (a as u16 + b as u16) > 0xFF
}

/// Whether `a + b` carries out of bit 15.
#[verifier::when_used_as_spec(carry_add16)]
pub fn add16_needs_carry(a: u16, b: u16) -> (r: bool)
    ensures
        r == carry_add16(a, b),
{
    (a as u32 + b as u32) > 0xFFFF
}

/// Whether `a + b` carries out of bit 3.
#[verifier::when_used_as_spec(half_carry_add8)]
pub fn add8_needs_half_carry(a: u8, b: u8) -> (r: bool)
    ensures
        r == half_carry_add8(a, b),
{
    proof {
        lemma_nibble_bounds(a, 0);
        lemma_nibble_bounds(b, 0);
    }
    ((a & 0x0F) + (b & 0x0F)) > 0x0F
}

/// Whether `a + b` carries out of bit 11.
#[verifier::when_used_as_spec(half_carry_add16)]
pub fn add16_needs_half_carry(a: u16, b: u16) -> (r: bool)
    ensures
        r == half_carry_add16(a, b),
{
    proof {
        lemma_nibble_bounds(0, a);
        lemma_nibble_bounds(0, b);
    }
    ((a & 0x0FFF) + (b & 0x0FFF)) > 0x0FFF
}

/// Whether `a - b` borrows.
#[verifier::when_used_as_spec(carry_sub8)]
pub fn sub8_needs_carry(a: u8, b: u8) -> (r: bool)
    ensures
        r == carry_sub8(a, b),
{
    a < b
}

/// Whether `a - b` borrows from bit 4.
#[verifier::when_used_as_spec(half_carry_sub8)]
pub fn sub8_needs_half_carry(a: u8, b: u8) -> (r: bool)
    ensures
        r == half_carry_sub8(a, b),
{
    (a & 0x0F) < (b & 0x0F)
}

/// Whether `a + b` and the carry carry out of bit 7.
#[verifier::when_used_as_spec(carry_adc8)]
pub fn adc_needs_carry(a: u8, b: u8, carry: bool) -> (r: bool)
    ensures
        r == carry_adc8(a, b, carry),
{
    let cy: u16 = if carry { 1 } else { 0 };
    (a as u16 + b as u16 + cy) > 0xFF
}

/// Whether `a + b` and the carry carry out of bit 3.
#[verifier::when_used_as_spec(half_carry_adc8)]
pub fn adc_needs_half_carry(a: u8, b: u8, carry: bool) -> (r: bool)
    ensures
        r == half_carry_adc8(a, b, carry),
{
    proof {
        lemma_nibble_bounds(a, 0);
        lemma_nibble_bounds(b, 0);
    }
    let cy: u8 = if carry { 1 } else { 0 };
    ((a & 0x0F) + (b & 0x0F) + cy) > 0x0F
}

/// Whether `a - b` less the carry borrows.
#[verifier::when_used_as_spec(carry_sbc8)]
pub fn sbc_needs_carry(a: u8, b: u8, carry: bool) -> (r: bool)
    ensures
        r == carry_sbc8(a, b, carry),
{
    let cy: u16 = if carry { 1 } else { 0 };
    (a as u16) < (b as u16 + cy)
}

/// Whether `a - b` less the carry borrows from bit 4.
#[verifier::when_used_as_spec(half_carry_sbc8)]
pub fn sbc_needs_half_carry(a: u8, b: u8, carry: bool) -> (r: bool)
    ensures
        r == half_carry_sbc8(a, b, carry),
{
    proof {
        lemma_nibble_bounds(b, 0);
    }
    let cy: u8 = if carry { 1 } else { 0 };
    (a & 0x0F) < ((b & 0x0F) + cy)
}

} // verus!
