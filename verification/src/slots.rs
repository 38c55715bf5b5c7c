//! The operand model: where the data of an instruction lives.

use vstd::prelude::*;
use crate::decoder::DecodeError;
use crate::indexediter::IndexedIter;

verus! {

/// A memory cell addressed through a register: through the pair BC, DE or
/// HL, or, for `C`, the high-memory cell `0xFF00 + C`.
#[derive(Debug, PartialEq, Eq, Copy, Clone, Structural)]
pub enum AddrRegister {
    BC,
    DE,
    HL,
    C,
}

/// A 16-bit register: one of the paired views AF, BC, DE, HL over the byte
/// registers, or the stack pointer.
#[derive(Debug, PartialEq, Eq, Clone, Copy, Structural)]
pub enum Register16 {
    AF,
    BC,
    DE,
    HL,
    SP,
}

/// A byte register.
#[derive(Debug, PartialEq, Eq, Clone, Copy, Structural)]
pub enum Register8 {
    A,
    B,
    C,
    D,
    E,
    F,
    L,
    H,
}

/// Location of one operand of an instruction.
#[derive(Debug, PartialEq, Eq, Clone, Copy, Structural)]
pub enum Slot {
    /// Memory cell addressed through a register.
    AddrRegister(AddrRegister),
    Register16(Register16),
    Register8(Register8),
    /// High-memory cell `0xFF00 + offset`.
    Addr8(u8),
    /// Memory cell at an absolute address.
    Addr16(u16),
    /// Literal byte embedded in the instruction stream.
    Data8(u8),
    /// Literal word embedded in the instruction stream, little-endian.
    Data16(u16),
}

/// The word made of a high and a low byte.
pub open spec fn word(hi: u8, lo: u8) -> u16 {
    (hi as int * 256 + lo as int) as u16
}

/// Number of items a read of `want` items consumes from a stream that has
/// `left` items left: all of them when the stream holds enough, and
/// otherwise whatever is left, since a failed read exhausts the stream.
pub open spec fn consumed(left: Seq<u8>, want: nat) -> nat {
    if left.len() >= want {
        want
    } else {
        left.len()
    }
}

/// The byte at the head of `left`.
pub open spec fn read_u8(left: Seq<u8>) -> Result<u8, DecodeError> {
    if left.len() >= 1 {
        Ok(left[0])
    } else {
        Err(DecodeError::EndOfStream)
    }
}

/// The little-endian word at the head of `left`.
pub open spec fn read_u16(left: Seq<u8>) -> Result<u16, DecodeError> {
    if left.len() >= 2 {
        Ok(word(left[1], left[0]))
    } else {
        Err(DecodeError::EndOfStream)
    }
}

/// Applies `wrap` to a successfully read value.
pub open spec fn lift<T>(value: Result<T, DecodeError>, wrap: spec_fn(T) -> Slot) -> Result<
    Slot,
    DecodeError,
> {
    match value {
        Ok(v) => Ok(wrap(v)),
        Err(e) => Err(e),
    }
}

impl Slot {
    /// Reads a two-byte little-endian absolute address.
    pub fn parse_a16(data: &mut IndexedIter<u8>) -> (res: Result<Slot, DecodeError>)
        ensures
            final(data).items() == old(data).items(),
            old(data).position() <= old(data).items().len(),
            final(data).position() == old(data).position() + consumed(old(data).remaining(), 2),
            res == lift(read_u16(old(data).remaining()), |v: u16| Slot::Addr16(v)),
    {
        match decode_u16(data) {
            Ok(v) => Ok(Slot::Addr16(v)),
            Err(e) => Err(e),
        }
    }

    /// Reads a one-byte high-memory offset.
    pub fn parse_a8(data: &mut IndexedIter<u8>) -> (res: Result<Slot, DecodeError>)
        ensures
            final(data).items() == old(data).items(),
            old(data).position() <= old(data).items().len(),
            final(data).position() == old(data).position() + consumed(old(data).remaining(), 1),
            res == lift(read_u8(old(data).remaining()), |v: u8| Slot::Addr8(v)),
    {
        match decode_u8(data) {
            Ok(v) => Ok(Slot::Addr8(v)),
            Err(e) => Err(e),
        }
    }

    /// Reads a two-byte little-endian literal.
    pub fn parse_d16(data: &mut IndexedIter<u8>) -> (res: Result<Slot, DecodeError>)
        ensures
            final(data).items() == old(data).items(),
            old(data).position() <= old(data).items().len(),
            final(data).position() == old(data).position() + consumed(old(data).remaining(), 2),
            res == lift(read_u16(old(data).remaining()), |v: u16| Slot::Data16(v)),
    {
        match decode_u16(data) {
            Ok(v) => Ok(Slot::Data16(v)),
            Err(e) => Err(e),
        }
    }

    /// Reads a one-byte literal.
    pub fn parse_d8(data: &mut IndexedIter<u8>) -> (res: Result<Slot, DecodeError>)
        ensures
            final(data).items() == old(data).items(),
            old(data).position() <= old(data).items().len(),
            final(data).position() == old(data).position() + consumed(old(data).remaining(), 1),
            res == lift(read_u8(old(data).remaining()), |v: u8| Slot::Data8(v)),
    {
        match decode_u8(data) {
            Ok(v) => Ok(Slot::Data8(v)),
            Err(e) => Err(e),
        }
    }

    pub fn r8(r: Register8) -> (slot: Slot)
        ensures
            slot == Slot::Register8(r),
    {
        Slot::Register8(r)
    }

    pub fn r16(r: Register16) -> (slot: Slot)
        ensures
            slot == Slot::Register16(r),
    {
        Slot::Register16(r)
    }

    pub fn addr(r: AddrRegister) -> (slot: Slot)
        ensures
            slot == Slot::AddrRegister(r),
    {
        Slot::AddrRegister(r)
    }
}

/// Consumes one byte.
pub fn decode_u8(data: &mut IndexedIter<u8>) -> (res: Result<u8, DecodeError>)
    ensures
        final(data).items() == old(data).items(),
        old(data).position() <= old(data).items().len(),
        final(data).position() == old(data).position() + consumed(old(data).remaining(), 1),
        res == read_u8(old(data).remaining()),
{
    match data.next() {
        Some(value) => Ok(value),
        None => Err(DecodeError::EndOfStream),
    }
}

/// Consumes two bytes and assembles them little-endian. A stream that holds
/// a single byte is left exhausted.
pub fn decode_u16(data: &mut IndexedIter<u8>) -> (res: Result<u16, DecodeError>)
    ensures
        final(data).items() == old(data).items(),
        old(data).position() <= old(data).items().len(),
        final(data).position() == old(data).position() + consumed(old(data).remaining(), 2),
        res == read_u16(old(data).remaining()),
{
    let lo = match data.next() {
        Some(value) => value,
        None => {
            return Err(DecodeError::EndOfStream);
        },
    };
    let hi = match data.next() {
        Some(value) => value,
        None => {
            return Err(DecodeError::EndOfStream);
        },
    };
    Ok(hi as u16 * 256 + lo as u16)
}

} // verus!
