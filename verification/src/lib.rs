//! Decode/execute core of an emulator for a classic 8-bit handheld CPU.
//!
//! The crate decodes a raw byte stream into structured instructions and
//! applies them to a register file and a flat 64 KiB memory image.

pub mod annotations;
pub mod decoder;
pub mod emulation;
pub mod grouping;
pub mod indexediter;
pub mod listing;
pub mod memory;
pub mod slots;
pub mod text;
