//! The flat 64 KiB memory image.

use vstd::prelude::*;

verus! {

/// Number of cells of the address space.
pub const MEMORY_SIZE: usize = 65536;

/// Why an image could not be loaded.
#[derive(Debug, PartialEq, Eq, Clone, Copy, Structural)]
pub enum MemoryError {
    /// The image does not fit in the address space.
    DataTooLarge,
}

/// A flat memory of 65,536 byte cells, one per 16-bit address.
pub struct Memory([u8; 65536]);

/// The memory image that loading `data` gives: `data` at the low end,
/// zeroes behind it.
pub open spec fn image_of(data: Seq<u8>) -> Seq<u8> {
    Seq::new(
        MEMORY_SIZE as nat,
        |i: int|
            if i < data.len() {
                data[i]
            } else {
                0u8
            },
    )
}

impl View for Memory {
    type V = Seq<u8>;

    /// The content of the cells, indexed by address.
    closed spec fn view(&self) -> Seq<u8> {
        self.0@
    }
}

impl Memory {
    /// Every address has a cell.
    pub proof fn lemma_len(&self)
        ensures
            self@.len() == MEMORY_SIZE,
    {
    }

    /// Loads an image at address 0 of a zeroed memory. An image of more
    /// than `0xFFFF` bytes is refused.
    pub fn from_raw(data: &[u8]) -> (res: Result<Memory, MemoryError>)
        ensures
            data@.len() > 0xFFFF ==> res == Err::<Memory, MemoryError>(MemoryError::DataTooLarge),
            data@.len() <= 0xFFFF ==> res.is_ok() && res.unwrap()@ == image_of(data@),
    {
        if data.len() > 0xFFFF {
            return Err(MemoryError::DataTooLarge);
        }
        let mut content = [0u8;65536];
        let mut i: usize = 0;
        while i < data.len()
            invariant
                i <= data@.len() <= 0xFFFF,
                forall|k: int| 0 <= k < i ==> content@[k] == data@[k],
                forall|k: int| i <= k < MEMORY_SIZE ==> content@[k] == 0u8,
            decreases data@.len() - i,
        {
            content[i] = data[i];
            i = i + 1;
        }
        let memory = Memory(content);
        assert(memory@ =~= image_of(data@));
        Ok(memory)
    }

    pub fn get(&self, pc: u16) -> (value: u8)
        ensures
            value == self@[pc as int],
    {
        self.0[pc as usize]
    }

    pub fn set(&mut self, pc: u16, value: u8)
        ensures
            final(self)@ == old(self)@.update(pc as int, value),
    {
        self.0[pc as usize] = value;
    }
}

} // verus!
