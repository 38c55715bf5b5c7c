//! The instruction executor: one decoded instruction applied to a register
//! file and a memory.

use vstd::prelude::*;
use crate::decoder::Opcode;
use crate::emulation::registers::{
    high_byte,
    lemma_with_flag,
    lemma_word_bytes,
    low_byte,
    spec_high_byte,
    spec_low_byte,
    Registers,
};
use crate::memory::Memory;
use crate::slots::{AddrRegister, Register16, Register8, Slot};

verus! {

/// Why an instruction could not be executed.
#[derive(Debug, PartialEq, Eq, Clone, Copy, Structural)]
pub enum ExecuteError {
    /// The operand cannot be used where the instruction has it: `F` or `AF`
    /// in a load, or a destination that cannot be written.
    IllegalOperand(Slot),
    /// The instruction has no semantics in this executor.
    UnknownOpcode(Opcode),
}

/// A register file together with the content of a memory.
pub struct Machine {
    pub registers: Registers,
    pub memory: Seq<u8>,
}

/// Base address of the high-memory page.
pub const HIGH_PAGE: u16 = 0xFF00;

/// The address `offset` cells into the high-memory page.
pub open spec fn high_address(offset: u8) -> u16 {
    (HIGH_PAGE + offset) as u16
}

pub open spec fn register8_value(register: Register8, registers: Registers) -> u8 {
    match register {
        Register8::A => registers.a,
        Register8::B => registers.b,
        Register8::C => registers.c,
        Register8::D => registers.d,
        Register8::E => registers.e,
        Register8::H => registers.h,
        Register8::L => registers.l,
        Register8::F => registers.f,
    }
}

pub open spec fn register16_value(register: Register16, registers: Registers) -> u16 {
    match register {
        Register16::AF => registers.spec_af(),
        Register16::BC => registers.spec_bc(),
        Register16::DE => registers.spec_de(),
        Register16::HL => registers.spec_hl(),
        Register16::SP => registers.sp,
    }
}

/// The address of the memory cell that a register names.
pub open spec fn indirect_address(register: AddrRegister, registers: Registers) -> u16 {
    match register {
        AddrRegister::BC => registers.spec_bc(),
        AddrRegister::DE => registers.spec_de(),
        AddrRegister::HL => registers.spec_hl(),
        AddrRegister::C => high_address(registers.c),
    }
}

/// The value found in a slot, widened to 16 bits.
pub open spec fn slot_value(slot: Slot, registers: Registers, memory: Seq<u8>) -> u16 {
    match slot {
        Slot::Register8(register) => register8_value(register, registers) as u16,
        Slot::AddrRegister(register) => memory[indirect_address(register, registers) as int] as u16,
        Slot::Register16(register) => register16_value(register, registers),
        Slot::Addr8(offset) => memory[high_address(offset) as int] as u16,
        Slot::Addr16(address) => memory[address as int] as u16,
        Slot::Data8(value) => value as u16,
        Slot::Data16(value) => value,
    }
}

/// The machine after `value` is written to a slot, truncated to the slot's
/// width. `F`, `AF` and the literals cannot be written.
pub open spec fn store(slot: Slot, machine: Machine, value: u16) -> Result<Machine, ExecuteError> {
    let registers = machine.registers;
    let memory = machine.memory;
    let low = spec_low_byte(value);
    let high = spec_high_byte(value);
    match slot {
        Slot::Register8(Register8::A) => Ok(
            Machine { registers: Registers { a: low, ..registers }, memory },
        ),
        Slot::Register8(Register8::B) => Ok(
            Machine { registers: Registers { b: low, ..registers }, memory },
        ),
        Slot::Register8(Register8::C) => Ok(
            Machine { registers: Registers { c: low, ..registers }, memory },
        ),
        Slot::Register8(Register8::D) => Ok(
            Machine { registers: Registers { d: low, ..registers }, memory },
        ),
        Slot::Register8(Register8::E) => Ok(
            Machine { registers: Registers { e: low, ..registers }, memory },
        ),
        Slot::Register8(Register8::H) => Ok(
            Machine { registers: Registers { h: low, ..registers }, memory },
        ),
        Slot::Register8(Register8::L) => Ok(
            Machine { registers: Registers { l: low, ..registers }, memory },
        ),
        Slot::Register16(Register16::BC) => Ok(
            Machine { registers: Registers { b: high, c: low, ..registers }, memory },
        ),
        Slot::Register16(Register16::DE) => Ok(
            Machine { registers: Registers { d: high, e: low, ..registers }, memory },
        ),
        Slot::Register16(Register16::HL) => Ok(
            Machine { registers: Registers { h: high, l: low, ..registers }, memory },
        ),
        Slot::Register16(Register16::SP) => Ok(
            Machine { registers: Registers { sp: value, ..registers }, memory },
        ),
        Slot::AddrRegister(register) => Ok(
            Machine {
                registers,
                memory: memory.update(indirect_address(register, registers) as int, low),
            },
        ),
        Slot::Addr8(offset) => Ok(
            Machine { registers, memory: memory.update(high_address(offset) as int, low) },
        ),
        Slot::Addr16(address) => Ok(
            Machine { registers, memory: memory.update(address as int, low) },
        ),
        Slot::Register8(Register8::F)
        | Slot::Register16(Register16::AF)
        | Slot::Data8(_)
        | Slot::Data16(_) => Err(ExecuteError::IllegalOperand(slot)),
    }
}

/// Whether the slot is `F` or `AF`, which no load may name.
pub open spec fn touches_flags(slot: Slot) -> bool {
    slot == Slot::Register8(Register8::F) || slot == Slot::Register16(Register16::AF)
}

/// Whether bit `index` of `value` is set. A byte has no bit beyond the
/// seventh.
pub open spec fn bit_is_set(value: u8, index: u8) -> bool {
    index < 8 && (value >> index) & 1 == 1
}

/// The address `offset` away from `pc`, in the 16-bit address space.
pub open spec fn jump_target(pc: u16, offset: i8) -> u16 {
    ((pc as int + offset as int) % 0x10000) as u16
}

/// The word `delta` away from `value`, wrapping at the ends of the range.
pub open spec fn wrapping_step(value: u16, delta: int) -> u16 {
    ((value as int + delta) % 0x10000) as u16
}

/// The machine after a store through HL followed by a step of HL.
pub open spec fn store_and_step(from: Register8, machine: Machine, delta: int) -> Machine {
    let registers = machine.registers;
    Machine {
        registers: registers.with_hl(wrapping_step(registers.spec_hl(), delta)),
        memory: machine.memory.update(
            registers.spec_hl() as int,
            register8_value(from, registers),
        ),
    }
}

/// The register file after a relative jump that is taken or not.
pub open spec fn jump_if(taken: bool, offset: i8, registers: Registers) -> Registers {
    if taken {
        Registers { pc: jump_target(registers.pc, offset), ..registers }
    } else {
        registers
    }
}

/// The machine after one instruction, or the reason why the instruction
/// cannot be executed.
pub open spec fn step(code: Opcode, machine: Machine) -> Result<Machine, ExecuteError> {
    let registers = machine.registers;
    let memory = machine.memory;
    match code {
        Opcode::Xor(from) => Ok(
            Machine {
                registers: Registers {
                    a: registers.a ^ register8_value(from, registers),
                    ..registers
                },
                memory,
            },
        ),
        Opcode::Ld(to, from) => if touches_flags(from) {
            Err(ExecuteError::IllegalOperand(from))
        } else if touches_flags(to) {
            Err(ExecuteError::IllegalOperand(to))
        } else {
            store(to, machine, slot_value(from, registers, memory))
        },
        Opcode::LdDec(from) => Ok(store_and_step(from, machine, -1)),
        Opcode::LdInc(from) => Ok(store_and_step(from, machine, 1)),
        Opcode::ComplBit(index, register) => Ok(
            Machine {
                registers: registers.with_flag_zero(
                    !bit_is_set(register8_value(register, registers), index),
                ),
                memory,
            },
        ),
        Opcode::JumpRNZMemOffset(offset) => Ok(
            Machine { registers: jump_if(!registers.spec_flag_zero(), offset, registers), memory },
        ),
        Opcode::JumpRZMemOffset(offset) => Ok(
            Machine { registers: jump_if(registers.spec_flag_zero(), offset, registers), memory },
        ),
        _ => Err(ExecuteError::UnknownOpcode(code)),
    }
}

/// Whether a call that returned `res` and left the machine as `after` did
/// what `expected` says: on success the machine is the expected one, and on
/// failure the error is the expected one and the machine is as before.
pub open spec fn outcome_is(
    res: Result<(), ExecuteError>,
    before: Machine,
    after: Machine,
    expected: Result<Machine, ExecuteError>,
) -> bool {
    match expected {
        Ok(machine) => res.is_ok() && after.registers == machine.registers && after.memory
            == machine.memory,
        Err(e) => res == Err::<(), ExecuteError>(e) && after.registers == before.registers
            && after.memory == before.memory,
    }
}

/// A load that names `F` or `AF`, as destination or as source, fails,
/// whatever the other operand and the machine are.
pub proof fn lemma_load_rejects_flags(to: Slot, from: Slot, machine: Machine)
    requires
        touches_flags(to) || touches_flags(from),
    ensures
        step(Opcode::Ld(to, from), machine).is_err(),
{
}

/// Writing a word to a register pair other than AF, or to SP, and reading
/// the register back gives the word written.
pub proof fn lemma_store_then_read(register: Register16, machine: Machine, value: u16)
    requires
        register != Register16::AF,
    ensures
        store(Slot::Register16(register), machine, value).is_ok(),
        register16_value(
            register,
            store(Slot::Register16(register), machine, value).unwrap().registers,
        ) == value,
{
    lemma_word_bytes(value, 0, 0);
}

/// Testing a bit twice gives the machine that testing it once gives: the
/// test changes nothing but the zero flag, so the bit tested is still the
/// same. The one exception is the test of bit 7 of `F`, which is the zero
/// flag itself.
pub proof fn lemma_bit_test_idempotent(index: u8, register: Register8, machine: Machine)
    requires
        !(register == Register8::F && index == 7),
    ensures
        step(Opcode::ComplBit(index, register), machine).is_ok(),
        step(
            Opcode::ComplBit(index, register),
            step(Opcode::ComplBit(index, register), machine).unwrap(),
        ) == step(Opcode::ComplBit(index, register), machine),
{
    let flags = machine.registers.f;
    let value = !bit_is_set(register8_value(register, machine.registers), index);
    lemma_with_flag(flags, value);
    if register == Register8::F && index < 7 {
        assert(((flags | 0x80u8) >> index) & 1 == (flags >> index) & 1) by (bit_vector)
            requires
                index < 7,
        ;
        assert(((flags & !0x80u8) >> index) & 1 == (flags >> index) & 1) by (bit_vector)
            requires
                index < 7,
        ;
    }
}

pub fn fetch_register8(register: Register8, registers: &Registers) -> (value: u8)
    ensures
        value == register8_value(register, *registers),
{
    match register {
        Register8::A => registers.a,
        Register8::B => registers.b,
        Register8::C => registers.c,
        Register8::D => registers.d,
        Register8::E => registers.e,
        Register8::H => registers.h,
        Register8::L => registers.l,
        Register8::F => registers.f,
    }
}

pub fn fetch_register16(register: Register16, registers: &Registers) -> (value: u16)
    ensures
        value == register16_value(register, *registers),
{
    match register {
        Register16::AF => registers.af(),
        Register16::BC => registers.bc(),
        Register16::DE => registers.de(),
        Register16::HL => registers.hl(),
        Register16::SP => registers.sp,
    }
}

/// The address of the memory cell that a register names.
pub fn fetch_address(register: AddrRegister, registers: &Registers) -> (address: u16)
    ensures
        address == indirect_address(register, *registers),
{
    match register {
        AddrRegister::BC => registers.bc(),
        AddrRegister::DE => registers.de(),
        AddrRegister::HL => registers.hl(),
        AddrRegister::C => HIGH_PAGE + registers.c as u16,
    }
}

/// Fetches the value in a slot as a 16-bit word, whatever the slot's
/// width, so that 8-bit and 16-bit instructions share their logic.
pub fn fetch_value(slot: Slot, registers: &Registers, memory: &Memory) -> (value: u16)
    ensures
        value == slot_value(slot, *registers, memory@),
{
    match slot {
        Slot::Register8(register) => fetch_register8(register, registers) as u16,
        Slot::AddrRegister(register) => memory.get(fetch_address(register, registers)) as u16,
        Slot::Register16(register) => fetch_register16(register, registers),
        Slot::Addr8(offset) => memory.get(HIGH_PAGE + offset as u16) as u16,
        Slot::Addr16(address) => memory.get(address) as u16,
        Slot::Data8(value) => value as u16,
        Slot::Data16(value) => value,
    }
}

/// Writes `value` to a slot, truncated to the slot's width. Fails, and
/// writes nothing, where the slot is `F`, `AF` or a literal.
pub fn set_value(slot: Slot, registers: &mut Registers, memory: &mut Memory, value: u16) -> (res:
    Result<(), ExecuteError>)
    ensures
        outcome_is(
            res,
            Machine { registers: *old(registers), memory: old(memory)@ },
            Machine { registers: *final(registers), memory: final(memory)@ },
            store(slot, Machine { registers: *old(registers), memory: old(memory)@ }, value),
        ),
{
    match slot {
        Slot::Register8(register) => match register {
            Register8::A => registers.a = low_byte(value),
            Register8::B => registers.b = low_byte(value),
            Register8::C => registers.c = low_byte(value),
            Register8::D => registers.d = low_byte(value),
            Register8::E => registers.e = low_byte(value),
            Register8::H => registers.h = low_byte(value),
            Register8::L => registers.l = low_byte(value),
            Register8::F => {
                return Err(ExecuteError::IllegalOperand(slot));
            },
        },
        Slot::AddrRegister(register) => {
            memory.set(fetch_address(register, registers), low_byte(value));
        },
        Slot::Register16(register) => match register {
            Register16::AF => {
                return Err(ExecuteError::IllegalOperand(slot));
            },
            Register16::BC => {
                registers.b = high_byte(value);
                registers.c = low_byte(value);
            },
            Register16::DE => {
                registers.d = high_byte(value);
                registers.e = low_byte(value);
            },
            Register16::HL => {
                registers.h = high_byte(value);
                registers.l = low_byte(value);
            },
            Register16::SP => registers.sp = value,
        },
        Slot::Addr8(offset) => memory.set(HIGH_PAGE + offset as u16, low_byte(value)),
        Slot::Addr16(address) => memory.set(address, low_byte(value)),
        Slot::Data8(_) => {
            return Err(ExecuteError::IllegalOperand(slot));
        },
        Slot::Data16(_) => {
            return Err(ExecuteError::IllegalOperand(slot));
        },
    };
    Ok(())
}

/// The word one above `value`, wrapping from `0xFFFF` to 0.
fn wrapping_inc(value: u16) -> (next: u16)
    ensures
        next == wrapping_step(value, 1),
{
    if value == 0xFFFF {
        0
    } else {
        value + 1
    }
}

/// The word one below `value`, wrapping from 0 to `0xFFFF`.
fn wrapping_dec(value: u16) -> (next: u16)
    ensures
        next == wrapping_step(value, -1),
{
    if value == 0 {
        0xFFFF
    } else {
        value - 1
    }
}

/// The address `offset` away from `pc`, wrapping at the ends of the
/// address space.
fn relative_target(pc: u16, offset: i8) -> (target: u16)
    ensures
        target == jump_target(pc, offset),
{
    let sum: i32 = pc as i32 + offset as i32;
    if sum < 0 {
        (sum + 0x10000) as u16
    } else if sum > 0xFFFF {
        (sum - 0x10000) as u16
    } else {
        sum as u16
    }
}

/// Whether bit `index` of `value` is set.
fn test_bit(value: u8, index: u8) -> (set: bool)
    ensures
        set == bit_is_set(value, index),
{
    if index < 8 {
        let bit_value = 1 & (value >> index);
        assert(bit_value == (value >> index) & 1) by (bit_vector)
            requires
                bit_value == 1 & (value >> index),
        ;
        bit_value == 1
    } else {
        false
    }
}

/// Applies one decoded instruction to the register file and the memory.
///
/// A load that names `F` or `AF`, as source or as destination, fails
/// before anything is read or written. An instruction without semantics
/// here fails too. Whenever the call fails, registers and memory are as
/// they were.
pub fn execute(code: Opcode, registers: &mut Registers, memory: &mut Memory) -> (res: Result<
    (),
    ExecuteError,
>)
    ensures
        outcome_is(
            res,
            Machine { registers: *old(registers), memory: old(memory)@ },
            Machine { registers: *final(registers), memory: final(memory)@ },
            step(code, Machine { registers: *old(registers), memory: old(memory)@ }),
        ),
        res.is_err() ==> *final(registers) == *old(registers) && final(memory)@ == old(memory)@,
{
    match code {
        Opcode::Xor(from) => {
            let value = fetch_register8(Register8::A, registers) ^ fetch_register8(from, registers);
            registers.a = value;
        },
        Opcode::Ld(to, from) => {
            if matches!(from, Slot::Register8(Register8::F)) {
                return Err(ExecuteError::IllegalOperand(from));
            }
            if matches!(from, Slot::Register16(Register16::AF)) {
                return Err(ExecuteError::IllegalOperand(from));
            }
            if matches!(to, Slot::Register8(Register8::F)) {
                return Err(ExecuteError::IllegalOperand(to));
            }
            if matches!(to, Slot::Register16(Register16::AF)) {
                return Err(ExecuteError::IllegalOperand(to));
            }
            let value = fetch_value(from, registers, memory);
            return set_value(to, registers, memory, value);
        },
        Opcode::LdDec(from) => {
            let value = fetch_register8(from, registers);
            memory.set(registers.hl(), value);
            registers.set_hl(wrapping_dec(registers.hl()));
        },
        Opcode::LdInc(from) => {
            let value = fetch_register8(from, registers);
            memory.set(registers.hl(), value);
            registers.set_hl(wrapping_inc(registers.hl()));
        },
        Opcode::ComplBit(bit_index, register) => {
            let value = fetch_register8(register, registers);
            // The flag is the complement of the bit.
            registers.flag_zero_set(!test_bit(value, bit_index));
        },
        Opcode::JumpRNZMemOffset(offset) => {
            if !registers.flag_zero() {
                registers.pc = relative_target(registers.pc, offset);
            }
        },
        Opcode::JumpRZMemOffset(offset) => {
            if registers.flag_zero() {
                registers.pc = relative_target(registers.pc, offset);
            }
        },
        _ => {
            return Err(ExecuteError::UnknownOpcode(code));
        },
    };
    Ok(())
}

} // verus!
