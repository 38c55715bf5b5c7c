//! The instruction set and its decoder.

use vstd::prelude::*;
use crate::indexediter::IndexedIter;
use crate::memory::Memory;
use crate::slots::{
    consumed,
    decode_u8,
    read_u8,
    word,
    AddrRegister,
    Register16,
    Register8,
    Slot,
};

verus! {

/// A decoded instruction, independent of its byte encoding.
#[derive(Debug, PartialEq, Eq, Clone, Copy, Structural)]
pub enum Opcode {
    Nop,
    Halt,
    Ret,
    /// Load: destination, then source.
    Ld(Slot, Slot),
    Call(Slot),
    Inc(Slot),
    Cp(Slot, Slot),
    Dec(Slot),
    /// Subtract from the accumulator.
    Sub(Slot),
    /// Store the register at the cell HL points to, then decrement HL.
    LdDec(Register8),
    /// Store the register at the cell HL points to, then increment HL.
    LdInc(Register8),
    RotLeft(Register8),
    Push(Register16),
    Pop(Register16),
    /// Exclusive-or of the accumulator with the register.
    Xor(Register8),
    /// Test a bit of a register: the zero flag becomes the bit's complement.
    ComplBit(u8, Register8),
    /// Relative jump by a signed displacement, measured from the address
    /// that follows the jump's own encoding.
    Jump(i8),
    /// Relative jump taken when the zero flag is set.
    JumpRZMemOffset(i8),
    /// Relative jump taken when the zero flag is clear.
    JumpRNZMemOffset(i8),
}

/// Why a decode attempt failed.
#[derive(Debug, PartialEq, Eq, Clone, Copy, Structural)]
pub enum DecodeError {
    /// The stream ended in the middle of an instruction.
    EndOfStream,
    UnknownOpcode(u8),
    UnknownExtendedOpcode(u8),
}

/// Prefix byte that introduces a two-byte extended instruction.
pub const EXTENDED_PREFIX: u8 = 0xcb;

/// The byte read as a two's-complement displacement.
pub open spec fn displacement(byte: u8) -> i8 {
    if byte < 128 {
        byte as i8
    } else {
        (byte as int - 256) as i8
    }
}

/// The 8-entry operand table of the register-to-register load block:
/// B, C, D, E, H, L, the cell HL points to, A.
pub open spec fn load_block_slot(index: int) -> Slot {
    if index == 0 {
        Slot::Register8(Register8::B)
    } else if index == 1 {
        Slot::Register8(Register8::C)
    } else if index == 2 {
        Slot::Register8(Register8::D)
    } else if index == 3 {
        Slot::Register8(Register8::E)
    } else if index == 4 {
        Slot::Register8(Register8::H)
    } else if index == 5 {
        Slot::Register8(Register8::L)
    } else if index == 6 {
        Slot::AddrRegister(AddrRegister::HL)
    } else {
        Slot::Register8(Register8::A)
    }
}

/// The instruction a second byte selects after the extended prefix.
pub open spec fn decode_extended_spec(byte: u8) -> Result<Opcode, DecodeError> {
    if byte == 0x11 {
        Ok(Opcode::RotLeft(Register8::C))
    } else if byte == 0x7c {
        Ok(Opcode::ComplBit(7, Register8::H))
    } else if byte == 0x4f {
        Ok(Opcode::ComplBit(1, Register8::A))
    } else {
        Err(DecodeError::UnknownExtendedOpcode(byte))
    }
}

/// One row of the opcode table: the instruction that the unprefixed
/// opcode byte selects, given the immediate byte `d8` and the immediate
/// word `d16` that may follow it, and the number of immediate bytes the
/// instruction carries. `None` for a byte that selects no instruction.
pub open spec fn opcode_row(byte: u8, d8: u8, d16: u16) -> Option<(Opcode, nat)> {
    let a = Slot::Register8(Register8::A);
    let b = Slot::Register8(Register8::B);
    let c = Slot::Register8(Register8::C);
    let d = Slot::Register8(Register8::D);
    let e = Slot::Register8(Register8::E);
    let h = Slot::Register8(Register8::H);
    let l = Slot::Register8(Register8::L);
    let bc = Slot::Register16(Register16::BC);
    let de = Slot::Register16(Register16::DE);
    let hl = Slot::Register16(Register16::HL);
    let sp = Slot::Register16(Register16::SP);
    let at_bc = Slot::AddrRegister(AddrRegister::BC);
    let at_de = Slot::AddrRegister(AddrRegister::DE);
    let at_hl = Slot::AddrRegister(AddrRegister::HL);
    let at_c = Slot::AddrRegister(AddrRegister::C);
    if byte == 0x76 {
        Some((Opcode::Halt, 0))
    } else if 0x40 <= byte < 0x80 {
        Some(
            (
                Opcode::Ld(
                    load_block_slot((byte - 0x40) / 8),
                    load_block_slot((byte - 0x40) % 8),
                ),
                0,
            ),
        )
    } else {
        match byte {
            0x00 => Some((Opcode::Nop, 0)),
            0x01 => Some((Opcode::Ld(bc, Slot::Data16(d16)), 2)),
            0x02 => Some((Opcode::Ld(at_bc, a), 0)),
            0x03 => Some((Opcode::Inc(bc), 0)),
            0x04 => Some((Opcode::Inc(b), 0)),
            0x05 => Some((Opcode::Dec(b), 0)),
            0x06 => Some((Opcode::Ld(b, Slot::Data8(d8)), 1)),
            0x0c => Some((Opcode::Inc(c), 0)),
            0x0d => Some((Opcode::Dec(c), 0)),
            0x0e => Some((Opcode::Ld(c, Slot::Data8(d8)), 1)),
            0x11 => Some((Opcode::Ld(de, Slot::Data16(d16)), 2)),
            0x13 => Some((Opcode::Inc(de), 0)),
            0x14 => Some((Opcode::Inc(d), 0)),
            0x15 => Some((Opcode::Dec(d), 0)),
            0x16 => Some((Opcode::Ld(d, Slot::Data8(d8)), 1)),
            0x17 => Some((Opcode::RotLeft(Register8::A), 0)),
            0x18 => Some((Opcode::Jump(displacement(d8)), 1)),
            0x1a => Some((Opcode::Ld(a, at_de), 0)),
            0x1b => Some((Opcode::Dec(de), 0)),
            0x1c => Some((Opcode::Inc(e), 0)),
            0x1d => Some((Opcode::Dec(e), 0)),
            0x1e => Some((Opcode::Ld(e, Slot::Data8(d8)), 1)),
            0x20 => Some((Opcode::JumpRNZMemOffset(displacement(d8)), 1)),
            0x21 => Some((Opcode::Ld(hl, Slot::Data16(d16)), 2)),
            0x22 => Some((Opcode::LdInc(Register8::A), 0)),
            0x23 => Some((Opcode::Inc(hl), 0)),
            0x24 => Some((Opcode::Inc(h), 0)),
            0x25 => Some((Opcode::Dec(h), 0)),
            0x28 => Some((Opcode::JumpRZMemOffset(displacement(d8)), 1)),
            0x2e => Some((Opcode::Ld(l, Slot::Data8(d8)), 1)),
            0x31 => Some((Opcode::Ld(sp, Slot::Data16(d16)), 2)),
            0x32 => Some((Opcode::LdDec(Register8::A), 0)),
            0x34 => Some((Opcode::Inc(at_hl), 0)),
            0x35 => Some((Opcode::Dec(at_hl), 0)),
            0x3d => Some((Opcode::Dec(a), 0)),
            0x3e => Some((Opcode::Ld(a, Slot::Data8(d8)), 1)),
            0x90 => Some((Opcode::Sub(b), 0)),
            0x91 => Some((Opcode::Sub(c), 0)),
            0x92 => Some((Opcode::Sub(d), 0)),
            0x93 => Some((Opcode::Sub(e), 0)),
            0x94 => Some((Opcode::Sub(h), 0)),
            0x95 => Some((Opcode::Sub(l), 0)),
            0x96 => Some((Opcode::Sub(at_hl), 0)),
            0x97 => Some((Opcode::Sub(a), 0)),
            0xaf => Some((Opcode::Xor(Register8::A), 0)),
            0xc1 => Some((Opcode::Pop(Register16::BC), 0)),
            0xc5 => Some((Opcode::Push(Register16::BC), 0)),
            0xc9 => Some((Opcode::Ret, 0)),
            0xcd => Some((Opcode::Call(Slot::Data16(d16)), 2)),
            0xe0 => Some((Opcode::Ld(Slot::Addr8(d8), a), 1)),
            0xe2 => Some((Opcode::Ld(at_c, a), 0)),
            0xea => Some((Opcode::Ld(Slot::Addr16(d16), a), 2)),
            0xf0 => Some((Opcode::Ld(a, Slot::Addr8(d8)), 1)),
            0xf1 => Some((Opcode::Pop(Register16::AF), 0)),
            0xfe => Some((Opcode::Cp(a, Slot::Data8(d8)), 1)),
            _ => None,
        }
    }
}

/// The table row that the stream `left` selects: its first byte is the
/// opcode byte, the bytes behind it are the immediates.
pub open spec fn selected_row(left: Seq<u8>) -> Option<(Opcode, nat)>
    recommends
        left.len() >= 1,
{
    opcode_row(
        left[0],
        if left.len() >= 2 {
            left[1]
        } else {
            0
        },
        if left.len() >= 3 {
            word(left[2], left[1])
        } else {
            0
        },
    )
}

/// What decoding the stream `left` yields.
pub open spec fn decode_spec(left: Seq<u8>) -> Result<Opcode, DecodeError> {
    if left.len() == 0 {
        Err(DecodeError::EndOfStream)
    } else if left[0] == EXTENDED_PREFIX {
        if left.len() < 2 {
            Err(DecodeError::EndOfStream)
        } else {
            decode_extended_spec(left[1])
        }
    } else {
        match selected_row(left) {
            None => Err(DecodeError::UnknownOpcode(left[0])),
            Some((opcode, immediates)) => if left.len() < 1 + immediates {
                Err(DecodeError::EndOfStream)
            } else {
                Ok(opcode)
            },
        }
    }
}

/// How many bytes decoding the stream `left` consumes: the bytes of one
/// instruction, or, where decoding fails, the bytes read up to the failure
/// (a stream that ends early is left exhausted).
pub open spec fn decode_len(left: Seq<u8>) -> nat {
    if left.len() == 0 {
        0
    } else if left[0] == EXTENDED_PREFIX {
        consumed(left, 2)
    } else {
        match selected_row(left) {
            None => 1,
            Some((opcode, immediates)) => consumed(left, 1 + immediates),
        }
    }
}

/// Decoding never consumes more than the stream holds, and a successful
/// decode consumes one to three bytes: the opcode byte, then a second
/// opcode byte or at most two immediate bytes.
pub proof fn lemma_decode_len_bounds(left: Seq<u8>)
    ensures
        decode_len(left) <= left.len(),
        decode_spec(left).is_ok() ==> 1 <= decode_len(left) <= 3,
        decode_spec(left) != Err::<Opcode, DecodeError>(DecodeError::EndOfStream) ==> left.len()
            >= 1,
{
}

/// Every opcode byte of the load block `0x40..0x80` decodes, alone, to the
/// load whose destination is the table entry of the high three bits of
/// the byte's offset into the block and whose source is the entry of the
/// low three bits; except `0x76`, which decodes to `Halt`.
pub proof fn lemma_load_block(left: Seq<u8>)
    requires
        left.len() >= 1,
        0x40 <= left[0] < 0x80,
    ensures
        decode_len(left) == 1,
        left[0] == 0x76 ==> decode_spec(left) == Ok::<Opcode, DecodeError>(Opcode::Halt),
        left[0] != 0x76 ==> decode_spec(left) == Ok::<Opcode, DecodeError>(
            Opcode::Ld(
                load_block_slot(((left[0] - 0x40) as u8 >> 3) as int),
                load_block_slot(((left[0] - 0x40) as u8 & 0x7) as int),
            ),
        ),
{
    let address = (left[0] - 0x40) as u8;
    assert(address >> 3 == address / 8 && address & 0x7 == address % 8) by (bit_vector);
}

/// Reads the byte that follows a relative jump as its displacement.
fn fetch(data: &mut IndexedIter<u8>) -> (res: Result<i8, DecodeError>)
    ensures
        final(data).items() == old(data).items(),
        old(data).position() <= old(data).items().len(),
        final(data).position() == old(data).position() + consumed(old(data).remaining(), 1),
        res == match read_u8(old(data).remaining()) {
            Ok(byte) => Ok(displacement(byte)),
            Err(e) => Err(e),
        },
{
    let byte = decode_u8(data)?;
    if byte < 128 {
        Ok(byte as i8)
    } else {
        Ok((byte as i16 - 256) as i8)
    }
}

/// Decodes the instruction at the cursor and advances the cursor past it.
///
/// An opcode byte in `0x40..0x80` belongs to the register-to-register load
/// block: the high three bits of its offset into the block select the
/// destination and the low three bits the source, except for `0x76`, which
/// is `Halt`. The byte `0xCB` introduces a two-byte extended instruction.
pub fn decode(data: &mut IndexedIter<u8>) -> (res: Result<Opcode, DecodeError>)
    ensures
        final(data).items() == old(data).items(),
        old(data).position() <= old(data).items().len(),
        final(data).position() == old(data).position() + decode_len(old(data).remaining()),
        res == decode_spec(old(data).remaining()),
{
    let opcode = decode_u8(data)?;
    // Extended opcodes
    if opcode == EXTENDED_PREFIX {
        return decode_extended(decode_u8(data)?);
    }
    if 0x40 <= opcode && opcode < 0x80 {
        // Loading (HL) from (HL) is replaced by Halt.
        if opcode == 0x76 {
            return Ok(Opcode::Halt);
        }
        let address: u8 = opcode - 0x40;
        let mapping = [
            Slot::r8(Register8::B),
            Slot::r8(Register8::C),
            Slot::r8(Register8::D),
            Slot::r8(Register8::E),
            Slot::r8(Register8::H),
            Slot::r8(Register8::L),
            Slot::AddrRegister(AddrRegister::HL),
            Slot::r8(Register8::A),
        ];
        let to: u8 = address >> 3;
        let from: u8 = address & 0x7;
        assert(to == address / 8 && from == address % 8) by (bit_vector)
            requires
                to == address >> 3,
                from == address & 0x7,
        ;
        return Ok(Opcode::Ld(mapping[to as usize], mapping[from as usize]));
    }
    Ok(
        match opcode {
            0x00 => Opcode::Nop,
            0x01 => Opcode::Ld(Slot::r16(Register16::BC), Slot::parse_d16(data)?),
            0x02 => Opcode::Ld(Slot::addr(AddrRegister::BC), Slot::r8(Register8::A)),
            0x03 => Opcode::Inc(Slot::r16(Register16::BC)),
            0x04 => Opcode::Inc(Slot::r8(Register8::B)),
            0x05 => Opcode::Dec(Slot::r8(Register8::B)),
            0x06 => Opcode::Ld(Slot::r8(Register8::B), Slot::parse_d8(data)?),
            0x0c => Opcode::Inc(Slot::r8(Register8::C)),
            0x0d => Opcode::Dec(Slot::r8(Register8::C)),
            0x0e => Opcode::Ld(Slot::r8(Register8::C), Slot::parse_d8(data)?),
            0x11 => Opcode::Ld(Slot::r16(Register16::DE), Slot::parse_d16(data)?),
            0x13 => Opcode::Inc(Slot::r16(Register16::DE)),
            0x14 => Opcode::Inc(Slot::r8(Register8::D)),
            0x15 => Opcode::Dec(Slot::r8(Register8::D)),
            0x16 => Opcode::Ld(Slot::r8(Register8::D), Slot::parse_d8(data)?),
            0x17 => Opcode::RotLeft(Register8::A),
            0x18 => Opcode::Jump(fetch(data)?),
            0x1a => Opcode::Ld(Slot::r8(Register8::A), Slot::addr(AddrRegister::DE)),
            0x1b => Opcode::Dec(Slot::r16(Register16::DE)),
            0x1c => Opcode::Inc(Slot::r8(Register8::E)),
            0x1d => Opcode::Dec(Slot::r8(Register8::E)),
            0x1e => Opcode::Ld(Slot::r8(Register8::E), Slot::parse_d8(data)?),
            0x20 => Opcode::JumpRNZMemOffset(fetch(data)?),
            0x21 => Opcode::Ld(Slot::r16(Register16::HL), Slot::parse_d16(data)?),
            0x22 => Opcode::LdInc(Register8::A),
            0x23 => Opcode::Inc(Slot::r16(Register16::HL)),
            0x24 => Opcode::Inc(Slot::r8(Register8::H)),
            0x25 => Opcode::Dec(Slot::r8(Register8::H)),
            0x28 => Opcode::JumpRZMemOffset(fetch(data)?),
            0x2e => Opcode::Ld(Slot::r8(Register8::L), Slot::parse_d8(data)?),
            0x31 => Opcode::Ld(Slot::r16(Register16::SP), Slot::parse_d16(data)?),
            0x32 => Opcode::LdDec(Register8::A),
            0x34 => Opcode::Inc(Slot::AddrRegister(AddrRegister::HL)),
            0x35 => Opcode::Dec(Slot::AddrRegister(AddrRegister::HL)),
            0x3d => Opcode::Dec(Slot::r8(Register8::A)),
            0x3e => Opcode::Ld(Slot::r8(Register8::A), Slot::parse_d8(data)?),
            0x90 => Opcode::Sub(Slot::r8(Register8::B)),
            0x91 => Opcode::Sub(Slot::r8(Register8::C)),
            0x92 => Opcode::Sub(Slot::r8(Register8::D)),
            0x93 => Opcode::Sub(Slot::r8(Register8::E)),
            0x94 => Opcode::Sub(Slot::r8(Register8::H)),
            0x95 => Opcode::Sub(Slot::r8(Register8::L)),
            0x96 => Opcode::Sub(Slot::AddrRegister(AddrRegister::HL)),
            0x97 => Opcode::Sub(Slot::r8(Register8::A)),
            0xaf => Opcode::Xor(Register8::A),
            0xc1 => Opcode::Pop(Register16::BC),
            0xc5 => Opcode::Push(Register16::BC),
            0xc9 => Opcode::Ret,
            0xcd => Opcode::Call(Slot::parse_d16(data)?),
            0xe0 => Opcode::Ld(Slot::parse_a8(data)?, Slot::r8(Register8::A)),
            0xe2 => Opcode::Ld(Slot::addr(AddrRegister::C), Slot::r8(Register8::A)),
            0xea => Opcode::Ld(Slot::parse_a16(data)?, Slot::r8(Register8::A)),
            0xf0 => Opcode::Ld(Slot::r8(Register8::A), Slot::parse_a8(data)?),
            0xf1 => Opcode::Pop(Register16::AF),
            0xfe => Opcode::Cp(Slot::r8(Register8::A), Slot::parse_d8(data)?),
            _ => {
                return Err(DecodeError::UnknownOpcode(opcode));
            },
        },
    )
}

/// Longest encoding of an instruction, in bytes.
pub const MAX_INSTRUCTION_LEN: usize = 3;

/// Decoding looks at the first three bytes of the stream at most.
pub proof fn lemma_decode_window(left: Seq<u8>)
    requires
        left.len() >= MAX_INSTRUCTION_LEN,
    ensures
        decode_spec(left.subrange(0, MAX_INSTRUCTION_LEN as int)) == decode_spec(left),
        decode_len(left.subrange(0, MAX_INSTRUCTION_LEN as int)) == decode_len(left),
{
}

/// Decodes the instruction stored at the address `*pc` and moves `*pc`
/// past the bytes consumed. The stream is the memory from `*pc` up to the
/// end of the address space; a program counter that moves past the last
/// address wraps to 0.
pub fn decode_at(data: &Memory, pc: &mut u16) -> (res: Result<Opcode, DecodeError>)
    ensures
        res == decode_spec(data@.skip(*old(pc) as int)),
        *final(pc) as int == (*old(pc) + decode_len(data@.skip(*old(pc) as int))) % 0x10000,
{
    let start: u16 = *pc;
    let ghost stream = data@.skip(start as int);
    proof {
        data.lemma_len();
    }
    let mut window: Vec<u8> = Vec::new();
    let mut count: u16 = 0;
    while count < 3 && count <= 0xFFFF - start
        invariant
            data@.len() == 0x10000,
            count <= 3,
            start + count <= 0x10000,
            window@ == data@.subrange(start as int, start + count),
        decreases 3 - count,
    {
        window.push(data.get(start + count));
        count = count + 1;
        assert(window@ =~= data@.subrange(start as int, start + count));
    }
    let mut cursor = IndexedIter::from_vec(window);
    assert(cursor.remaining() =~= stream.subrange(0, count as int));
    proof {
        if count == 3 {
            lemma_decode_window(stream);
        } else {
            assert(stream.subrange(0, count as int) =~= stream);
        }
        lemma_decode_len_bounds(stream);
    }
    let res = decode(&mut cursor);
    let next: u32 = start as u32 + cursor.index() as u32;
    *pc = (next % 0x10000) as u16;
    res
}

/// Decodes the byte that follows the extended prefix.
pub fn decode_extended(data: u8) -> (res: Result<Opcode, DecodeError>)
    ensures
        res == decode_extended_spec(data),
{
    Ok(
        match data {
            0x11 => Opcode::RotLeft(Register8::C),
            0x7c => Opcode::ComplBit(7, Register8::H),
            0x4f => Opcode::ComplBit(1, Register8::A),
            _ => {
                return Err(DecodeError::UnknownExtendedOpcode(data));
            },
        },
    )
}

} // verus!
