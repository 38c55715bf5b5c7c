//! The register file and the instruction executor.

pub mod executor;
pub mod registers;
