//! The register file.

use vstd::prelude::*;
use crate::slots::word;

verus! {

/// Bit of `F` that holds the zero flag.
pub const ZERO_FLAG: u8 = 0x80;

/// Bit of `F` that holds the carry flag.
pub const CARRY_FLAG: u8 = 0x10;

/// The byte registers, the flags and the two word registers.
#[derive(Debug, Clone, Copy, PartialEq, Eq, Structural)]
pub struct Registers {
    pub a: u8,
    pub b: u8,
    pub c: u8,
    pub d: u8,
    pub e: u8,
    pub h: u8,
    pub l: u8,
    /// Flags.
    pub f: u8,
    /// Program counter.
    pub pc: u16,
    /// Stack pointer.
    pub sp: u16,
}

/// The flags byte with the bits of `mask` set or cleared.
pub open spec fn with_flag(flags: u8, mask: u8, value: bool) -> u8 {
    if value {
        flags | mask
    } else {
        flags & !mask
    }
}

/// The high byte of a word.
pub open spec fn spec_high_byte(value: u16) -> u8 {
    (value / 256) as u8
}

/// The low byte of a word.
pub open spec fn spec_low_byte(value: u16) -> u8 {
    (value % 256) as u8
}

/// Splitting a word into its bytes and joining them again gives the word
/// back, and joining two bytes and splitting the word gives the bytes back.
pub proof fn lemma_word_bytes(value: u16, hi: u8, lo: u8)
    ensures
        word(spec_high_byte(value), spec_low_byte(value)) == value,
        spec_high_byte(word(hi, lo)) == hi,
        spec_low_byte(word(hi, lo)) == lo,
{
}

/// Setting a flag makes that flag read as the value set, and changes no
/// other bit of the flags byte.
pub proof fn lemma_with_flag(flags: u8, value: bool)
    ensures
        (with_flag(flags, ZERO_FLAG, value) & ZERO_FLAG != 0) == value,
        with_flag(flags, ZERO_FLAG, value) & !ZERO_FLAG == flags & !ZERO_FLAG,
        (with_flag(flags, CARRY_FLAG, value) & CARRY_FLAG != 0) == value,
        with_flag(flags, CARRY_FLAG, value) & !CARRY_FLAG == flags & !CARRY_FLAG,
        with_flag(with_flag(flags, ZERO_FLAG, value), ZERO_FLAG, value) == with_flag(
            flags,
            ZERO_FLAG,
            value,
        ),
        with_flag(with_flag(flags, CARRY_FLAG, value), CARRY_FLAG, value) == with_flag(
            flags,
            CARRY_FLAG,
            value,
        ),
{
    assert((flags | 0x80u8) & 0x80u8 != 0) by (bit_vector);
    assert((flags & !0x80u8) & 0x80u8 == 0) by (bit_vector);
    assert((flags | 0x80u8) & !0x80u8 == flags & !0x80u8) by (bit_vector);
    assert((flags & !0x80u8) & !0x80u8 == flags & !0x80u8) by (bit_vector);
    assert((flags | 0x10u8) & 0x10u8 != 0) by (bit_vector);
    assert((flags & !0x10u8) & 0x10u8 == 0) by (bit_vector);
    assert((flags | 0x10u8) & !0x10u8 == flags & !0x10u8) by (bit_vector);
    assert((flags & !0x10u8) & !0x10u8 == flags & !0x10u8) by (bit_vector);
    assert((flags | 0x80u8) | 0x80u8 == flags | 0x80u8) by (bit_vector);
    assert((flags | 0x10u8) | 0x10u8 == flags | 0x10u8) by (bit_vector);
}

/// The high byte of a word.
pub fn high_byte(value: u16) -> (byte: u8)
    ensures
        byte == spec_high_byte(value),
{
    let byte: u16 = value >> 8;
    assert(byte == value / 256) by (bit_vector)
        requires
            byte == value >> 8,
    ;
    byte as u8
}

/// The low byte of a word.
pub fn low_byte(value: u16) -> (byte: u8)
    ensures
        byte == spec_low_byte(value),
{
    let byte: u16 = value & 0xFF;
    assert(byte == value % 256) by (bit_vector)
        requires
            byte == value & 0xFF,
    ;
    byte as u8
}

/// Joins a high and a low byte into a word.
pub fn make_word(hi: u8, lo: u8) -> (value: u16)
    ensures
        value == word(hi, lo),
{
    let high: u16 = hi as u16;
    let low: u16 = lo as u16;
    let value: u16 = high << 8 | low;
    assert(value == high * 256 + low) by (bit_vector)
        requires
            high < 256,
            low < 256,
            value == high << 8 | low,
    ;
    value
}

impl Default for Registers {
    /// A register file with every register at zero.
    fn default() -> (registers: Self)
        ensures
            registers == (Registers {
                a: 0,
                b: 0,
                c: 0,
                d: 0,
                e: 0,
                h: 0,
                l: 0,
                f: 0,
                pc: 0,
                sp: 0,
            }),
    {
        Registers { a: 0, b: 0, c: 0, d: 0, e: 0, h: 0, l: 0, f: 0, pc: 0, sp: 0 }
    }
}

impl Registers {
    pub open spec fn spec_flag_zero(&self) -> bool {
        self.f & ZERO_FLAG != 0
    }

    pub open spec fn spec_flag_carry(&self) -> bool {
        self.f & CARRY_FLAG != 0
    }

    pub open spec fn spec_af(&self) -> u16 {
        word(self.a, self.f)
    }

    pub open spec fn spec_bc(&self) -> u16 {
        word(self.b, self.c)
    }

    pub open spec fn spec_de(&self) -> u16 {
        word(self.d, self.e)
    }

    pub open spec fn spec_hl(&self) -> u16 {
        word(self.h, self.l)
    }

    /// The register file with HL replaced by `val`.
    pub open spec fn with_hl(self, val: u16) -> Registers {
        Registers { h: spec_high_byte(val), l: spec_low_byte(val), ..self }
    }

    /// The register file with the zero flag replaced by `value`.
    pub open spec fn with_flag_zero(self, value: bool) -> Registers {
        Registers { f: with_flag(self.f, ZERO_FLAG, value), ..self }
    }

    /// The register file with the carry flag replaced by `value`.
    pub open spec fn with_flag_carry(self, value: bool) -> Registers {
        Registers { f: with_flag(self.f, CARRY_FLAG, value), ..self }
    }

    /// The zero flag: bit 7 of `F`.
    #[verifier::when_used_as_spec(spec_flag_zero)]
    pub fn flag_zero(&self) -> (flag: bool)
        ensures
            flag == self.spec_flag_zero(),
    {
        (self.f & ZERO_FLAG) != 0
    }

    /// The zero flag in place: `0x80` when set, 0 when clear.
    pub fn flag_zero_u8(&self) -> (flag: u8)
        ensures
            flag == self.f & ZERO_FLAG,
            flag == if self.spec_flag_zero() {
                ZERO_FLAG
            } else {
                0
            },
    {
        let f = self.f;
        assert(f & 0x80u8 == 0 || f & 0x80u8 == 0x80u8) by (bit_vector);
        self.f & ZERO_FLAG
    }

    /// Sets or clears the zero flag and leaves every other bit alone.
    pub fn flag_zero_set(&mut self, value: bool)
        ensures
            *final(self) == old(self).with_flag_zero(value),
            final(self).spec_flag_zero() == value,
            final(self).f & !ZERO_FLAG == old(self).f & !ZERO_FLAG,
    {
        proof {
            lemma_with_flag(self.f, value);
        }
        self.f = if value {
            self.f | ZERO_FLAG
        } else {
            self.f & (!ZERO_FLAG)
        }
    }

    /// The carry flag: bit 4 of `F`.
    #[verifier::when_used_as_spec(spec_flag_carry)]
    pub fn flag_carry(&self) -> (flag: bool)
        ensures
            flag == self.spec_flag_carry(),
    {
        (self.f & CARRY_FLAG) != 0
    }

    /// The carry flag in the least significant bit: 1 when set, 0 when
    /// clear.
    pub fn flag_carry_u8(&self) -> (flag: u8)
        ensures
            flag == (self.f & CARRY_FLAG) >> 4,
            flag == if self.spec_flag_carry() {
                1u8
            } else {
                0u8
            },
    {
        let f = self.f;
        assert((f & 0x10u8 == 0 && (f & 0x10u8) >> 4 == 0) || (f & 0x10u8 != 0 && (f & 0x10u8) >> 4
            == 1)) by (bit_vector);
        (self.f & CARRY_FLAG) >> 4
    }

    /// Sets or clears the carry flag and leaves every other bit alone.
    pub fn flag_carry_set(&mut self, value: bool)
        ensures
            *final(self) == old(self).with_flag_carry(value),
            final(self).spec_flag_carry() == value,
            final(self).f & !CARRY_FLAG == old(self).f & !CARRY_FLAG,
    {
        proof {
            lemma_with_flag(self.f, value);
        }
        self.f = if value {
            self.f | CARRY_FLAG
        } else {
            self.f & (!CARRY_FLAG)
        }
    }

    /// The pair AF: `A` is the high byte, `F` the low byte.
    #[verifier::when_used_as_spec(spec_af)]
    pub fn af(&self) -> (value: u16)
        ensures
            value == self.spec_af(),
    {
        make_word(self.a, self.f)
    }

    /// The pair BC: `B` is the high byte, `C` the low byte.
    #[verifier::when_used_as_spec(spec_bc)]
    pub fn bc(&self) -> (value: u16)
        ensures
            value == self.spec_bc(),
    {
        make_word(self.b, self.c)
    }

    /// The pair DE: `D` is the high byte, `E` the low byte.
    #[verifier::when_used_as_spec(spec_de)]
    pub fn de(&self) -> (value: u16)
        ensures
            value == self.spec_de(),
    {
        make_word(self.d, self.e)
    }

    /// The pair HL: `H` is the high byte, `L` the low byte.
    #[verifier::when_used_as_spec(spec_hl)]
    pub fn hl(&self) -> (value: u16)
        ensures
            value == self.spec_hl(),
    {
        make_word(self.h, self.l)
    }

    /// Writes both halves of HL. Reading HL afterwards gives `val` back.
    pub fn set_hl(&mut self, val: u16)
        ensures
            *final(self) == old(self).with_hl(val),
            final(self).spec_hl() == val,
    {
        self.h = high_byte(val);
        self.l = low_byte(val);
    }
}

} // verus!
