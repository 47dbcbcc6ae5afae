//! An 8-bit virtual machine and the two-pass assembler that targets it.
//!
//! The assembler turns line-oriented source text into a raw byte image; the
//! processor loads that image at address 0 of its 64 KiB memory and interprets
//! it. Every executable function states its result over a mathematical model,
//! and the laws that relate several functions are public proof functions.

pub mod assembler;
pub mod numeral;
pub mod processor;
pub mod text;
pub mod utils;
