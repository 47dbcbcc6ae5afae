//! The assembler: from source text to a byte image.

pub mod isa;
pub mod line;
pub mod table;
pub mod operand;
pub mod assembler;
pub mod parse;
pub mod link;
pub mod declare;
pub mod decode;
pub mod laws;
