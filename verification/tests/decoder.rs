use gb::decoder::{decode, decode_at, decode_extended, DecodeError, Opcode};
use gb::indexediter::IndexedIter;
use gb::memory::Memory;
use gb::slots::{AddrRegister, Register16, Register8, Slot};

fn stream(bytes: &[u8]) -> IndexedIter<u8> {
    IndexedIter::from_vec(bytes.to_vec())
}

#[test]
fn decoder_decode_ld_band() {
    let mut pc = 0;
    let memory = Memory::from_raw(&[0x40u8, 0x5fu8, 0x66u8, 0x68u8]).unwrap();
    assert_eq!(
        decode_at(&memory, &mut pc).unwrap(),
        Opcode::Ld(Slot::Register8(Register8::B), Slot::Register8(Register8::B))
    );
    assert_eq!(
        decode_at(&memory, &mut pc).unwrap(),
        Opcode::Ld(Slot::Register8(Register8::E), Slot::Register8(Register8::A))
    );
    assert_eq!(
        decode_at(&memory, &mut pc).unwrap(),
        Opcode::Ld(Slot::Register8(Register8::H), Slot::AddrRegister(AddrRegister::HL),)
    );
    assert_eq!(
        decode_at(&memory, &mut pc).unwrap(),
        Opcode::Ld(Slot::Register8(Register8::L), Slot::Register8(Register8::B)),
    );

    let mut pc = 0;
    let memory = Memory::from_raw(&[0x7du8, 0x76u8]).unwrap();

    assert_eq!(
        decode_at(&memory, &mut pc).unwrap(),
        Opcode::Ld(Slot::Register8(Register8::A), Slot::Register8(Register8::L)),
    );
    assert_eq!(decode_at(&memory, &mut pc).unwrap(), Opcode::Halt);

    assert_eq!(pc, 2);
}

#[test]
fn main_decode_ld_band() {
    assert_eq!(
        decode(&mut stream(&[0x40u8])).unwrap(),
        Opcode::Ld(Slot::Register8(Register8::B), Slot::Register8(Register8::B))
    );
    assert_eq!(
        decode(&mut stream(&[0x5fu8])).unwrap(),
        Opcode::Ld(Slot::Register8(Register8::E), Slot::Register8(Register8::A))
    );
    assert_eq!(
        decode(&mut stream(&[0x66u8])).unwrap(),
        Opcode::Ld(Slot::Register8(Register8::H), Slot::AddrRegister(AddrRegister::HL),)
    );
    assert_eq!(
        decode(&mut stream(&[0x68u8])).unwrap(),
        Opcode::Ld(Slot::Register8(Register8::L), Slot::Register8(Register8::B)),
    );

    assert_eq!(
        decode(&mut stream(&[0x7du8])).unwrap(),
        Opcode::Ld(Slot::Register8(Register8::A), Slot::Register8(Register8::L)),
    );
    assert_eq!(decode(&mut stream(&[0x76u8])).unwrap(), Opcode::Halt);
}

#[test]
fn test_decode_whole_load_block() {
    let table = [
        Slot::Register8(Register8::B),
        Slot::Register8(Register8::C),
        Slot::Register8(Register8::D),
        Slot::Register8(Register8::E),
        Slot::Register8(Register8::H),
        Slot::Register8(Register8::L),
        Slot::AddrRegister(AddrRegister::HL),
        Slot::Register8(Register8::A),
    ];
    for byte in 0x40..0x80u8 {
        let mut data = stream(&[byte, 0xaa, 0xbb]);
        let decoded = decode(&mut data);
        if byte == 0x76 {
            assert_eq!(decoded, Ok(Opcode::Halt));
        } else {
            let address = (byte - 0x40) as usize;
            assert_eq!(decoded, Ok(Opcode::Ld(table[address >> 3], table[address & 0x7])));
        }
        assert_eq!(data.index(), 1);
    }
}

#[test]
fn test_decode_nop() {
    let mut data = stream(&[0x00]);
    assert_eq!(decode(&mut data), Ok(Opcode::Nop));
    assert_eq!(data.index(), 1);
}

#[test]
fn test_decode_load_word_immediate() {
    let mut data = stream(&[0x01, 0x34, 0x12]);
    assert_eq!(
        decode(&mut data),
        Ok(Opcode::Ld(Slot::Register16(Register16::BC), Slot::Data16(0x1234)))
    );
    assert_eq!(data.index(), 3);
}

#[test]
fn test_decode_truncated_stream() {
    let mut data = stream(&[0x01, 0x34]);
    assert_eq!(decode(&mut data), Err(DecodeError::EndOfStream));
    assert_eq!(data.index(), 2);
    let mut data = stream(&[0x01]);
    assert_eq!(decode(&mut data), Err(DecodeError::EndOfStream));
    assert_eq!(data.index(), 1);
    let mut data = stream(&[0x06]);
    assert_eq!(decode(&mut data), Err(DecodeError::EndOfStream));
    let mut data = stream(&[0x18]);
    assert_eq!(decode(&mut data), Err(DecodeError::EndOfStream));
    let mut data = stream(&[0xcb]);
    assert_eq!(decode(&mut data), Err(DecodeError::EndOfStream));
    assert_eq!(data.index(), 1);
}

#[test]
fn test_decode_empty_stream() {
    let mut data = stream(&[]);
    assert_eq!(decode(&mut data), Err(DecodeError::EndOfStream));
    assert_eq!(data.index(), 0);
}

#[test]
fn test_decode_extended() {
    let mut data = stream(&[0xcb, 0x7c]);
    assert_eq!(decode(&mut data), Ok(Opcode::ComplBit(7, Register8::H)));
    assert_eq!(data.index(), 2);
    let mut data = stream(&[0xcb, 0xff]);
    assert_eq!(decode(&mut data), Err(DecodeError::UnknownExtendedOpcode(0xff)));
    assert_eq!(data.index(), 2);
    assert_eq!(decode_extended(0x11), Ok(Opcode::RotLeft(Register8::C)));
    assert_eq!(decode_extended(0x4f), Ok(Opcode::ComplBit(1, Register8::A)));
    assert_eq!(decode_extended(0x7c), Ok(Opcode::ComplBit(7, Register8::H)));
    assert_eq!(decode_extended(0x00), Err(DecodeError::UnknownExtendedOpcode(0x00)));
}

#[test]
fn test_decode_unknown_opcode() {
    let mut data = stream(&[0xd3, 0x00]);
    assert_eq!(decode(&mut data), Err(DecodeError::UnknownOpcode(0xd3)));
    assert_eq!(data.index(), 1);
    let mut data = stream(&[0x07]);
    assert_eq!(decode(&mut data), Err(DecodeError::UnknownOpcode(0x07)));
}

#[test]
fn test_decode_relative_jumps() {
    let mut data = stream(&[0x18, 0x05, 0x20, 0xfb, 0x28, 0x80, 0x20, 0x7f]);
    assert_eq!(decode(&mut data), Ok(Opcode::Jump(5)));
    assert_eq!(decode(&mut data), Ok(Opcode::JumpRNZMemOffset(-5)));
    assert_eq!(decode(&mut data), Ok(Opcode::JumpRZMemOffset(-128)));
    assert_eq!(decode(&mut data), Ok(Opcode::JumpRNZMemOffset(127)));
    assert_eq!(data.index(), 8);
}

#[test]
fn test_decode_direct_table() {
    let a = Slot::Register8(Register8::A);
    let mut data = stream(&[
        0x02, 0x03, 0x05, 0x0e, 0x99, 0x17, 0x1a, 0x22, 0x31, 0xfe, 0xff, 0x32, 0x34, 0x96, 0xaf,
        0xc1, 0xc5, 0xc9, 0xcd, 0x95, 0x00, 0xe0, 0x47, 0xe2, 0xea, 0x10, 0x99, 0xf0, 0x44, 0xf1,
        0xfe, 0x90,
    ]);
    assert_eq!(decode(&mut data), Ok(Opcode::Ld(Slot::AddrRegister(AddrRegister::BC), a)));
    assert_eq!(decode(&mut data), Ok(Opcode::Inc(Slot::Register16(Register16::BC))));
    assert_eq!(decode(&mut data), Ok(Opcode::Dec(Slot::Register8(Register8::B))));
    assert_eq!(decode(&mut data), Ok(Opcode::Ld(Slot::Register8(Register8::C), Slot::Data8(0x99))));
    assert_eq!(decode(&mut data), Ok(Opcode::RotLeft(Register8::A)));
    assert_eq!(decode(&mut data), Ok(Opcode::Ld(a, Slot::AddrRegister(AddrRegister::DE))));
    assert_eq!(decode(&mut data), Ok(Opcode::LdInc(Register8::A)));
    assert_eq!(
        decode(&mut data),
        Ok(Opcode::Ld(Slot::Register16(Register16::SP), Slot::Data16(0xfffe)))
    );
    assert_eq!(decode(&mut data), Ok(Opcode::LdDec(Register8::A)));
    assert_eq!(decode(&mut data), Ok(Opcode::Inc(Slot::AddrRegister(AddrRegister::HL))));
    assert_eq!(decode(&mut data), Ok(Opcode::Sub(Slot::AddrRegister(AddrRegister::HL))));
    assert_eq!(decode(&mut data), Ok(Opcode::Xor(Register8::A)));
    assert_eq!(decode(&mut data), Ok(Opcode::Pop(Register16::BC)));
    assert_eq!(decode(&mut data), Ok(Opcode::Push(Register16::BC)));
    assert_eq!(decode(&mut data), Ok(Opcode::Ret));
    assert_eq!(decode(&mut data), Ok(Opcode::Call(Slot::Data16(0x0095))));
    assert_eq!(decode(&mut data), Ok(Opcode::Ld(Slot::Addr8(0x47), a)));
    assert_eq!(decode(&mut data), Ok(Opcode::Ld(Slot::AddrRegister(AddrRegister::C), a)));
    assert_eq!(decode(&mut data), Ok(Opcode::Ld(Slot::Addr16(0x9910), a)));
    assert_eq!(decode(&mut data), Ok(Opcode::Ld(a, Slot::Addr8(0x44))));
    assert_eq!(decode(&mut data), Ok(Opcode::Pop(Register16::AF)));
    assert_eq!(decode(&mut data), Ok(Opcode::Cp(a, Slot::Data8(0x90))));
    assert_eq!(decode(&mut data), Err(DecodeError::EndOfStream));
    assert_eq!(data.index(), 32);
}

#[test]
fn test_decode_at_reads_memory() {
    let memory = Memory::from_raw(&[0x00, 0x01, 0x34, 0x12, 0xcb, 0x7c, 0xd3]).unwrap();
    let mut pc = 0;
    assert_eq!(decode_at(&memory, &mut pc), Ok(Opcode::Nop));
    assert_eq!(pc, 1);
    assert_eq!(
        decode_at(&memory, &mut pc),
        Ok(Opcode::Ld(Slot::Register16(Register16::BC), Slot::Data16(0x1234)))
    );
    assert_eq!(pc, 4);
    assert_eq!(decode_at(&memory, &mut pc), Ok(Opcode::ComplBit(7, Register8::H)));
    assert_eq!(pc, 6);
    assert_eq!(decode_at(&memory, &mut pc), Err(DecodeError::UnknownOpcode(0xd3)));
    assert_eq!(pc, 7);
    // Memory behind the image is zero: a run of no-ops.
    assert_eq!(decode_at(&memory, &mut pc), Ok(Opcode::Nop));
    assert_eq!(pc, 8);
}

#[test]
fn test_decode_at_end_of_address_space() {
    let mut memory = Memory::from_raw(&[]).unwrap();
    memory.set(0xfffe, 0x01);
    memory.set(0xffff, 0x76);
    let mut pc = 0xffff;
    assert_eq!(decode_at(&memory, &mut pc), Ok(Opcode::Halt));
    assert_eq!(pc, 0);
    let mut pc = 0xfffe;
    assert_eq!(decode_at(&memory, &mut pc), Err(DecodeError::EndOfStream));
    assert_eq!(pc, 0);
}
