//! The instruction set: the operations, their opcode bytes and their
//! mnemonics.

use vstd::prelude::*;
use crate::text::same;

verus! {

/// An operation whose opcode has bit 7 clear. It takes one byte, but for
/// `LdaConst`, which is followed by the byte to load.
#[derive(Clone, Copy, Debug, PartialEq, Eq, Structural)]
pub enum Narrow {
    /// Do nothing.
    Nop,
    /// Halt the processor.
    Hlt,
    /// Swap `A` and `B`.
    Swp,
    /// Copy `A` to `B`.
    Tab,
    /// Copy `A` to `X`.
    Tax,
    /// Copy `X` to `A`.
    Txa,
    /// Add one to `X`.
    Inc,
    /// Take one from `X`.
    Dec,
    /// Add `B` and the carry to `A`.
    Add,
    /// Reserved.
    Adc,
    /// Reserved.
    Sub,
    /// Reserved.
    Sbc,
    /// Rotate `A` left through the carry.
    Lsr,
    /// Rotate `A` right through the carry.
    Lsl,
    /// Clear the carry.
    Clc,
    /// Set the carry.
    Sec,
    /// Write `A` to the output.
    Put,
    /// Push `A`.
    Psa,
    /// Pop into `A`.
    Ppa,
    /// Reserved; the processor reads the status byte into `A`.
    Pss,
    /// Reserved; the processor writes `A` to the status byte.
    Pps,
    /// Set the stack pointer from `A` and `B`.
    Ssp,
    /// Read the stack pointer into `A` and `B`.
    Gsp,
    /// Breakpoint.
    Brk,
    /// Return from a subroutine.
    Rts,
    /// Load `A` with the byte that follows the opcode.
    LdaConst,
    /// Read one byte of input into `A`.
    Get,
    /// Complement `A`.
    Not,
    /// `A` and `B`.
    And,
    /// `A` or `B`.
    Ior,
    /// `A` exclusive-or `B`.
    Xor,
    /// Read the fill of the input buffer into `A`.
    Gbf,
}

/// An operation on a 16-bit address; its opcode has bit 7 set.
#[derive(Clone, Copy, Debug, PartialEq, Eq, Structural)]
pub enum Wide {
    /// Load `A` from memory.
    Lda,
    /// Store `A` to memory.
    Sta,
    /// Jump.
    Jmp,
    /// Jump to a subroutine.
    Jsr,
    /// Jump if the zero flag is set.
    Jez,
    /// Jump if `A` is greater than `B`.
    Jgt,
}

/// What a line of a program asks for: an operation of the processor, or one
/// of the two directives that only the assembler knows.
#[derive(Clone, Copy, Debug, PartialEq, Eq, Structural)]
pub enum Instruction {
    Narrow(Narrow),
    /// `indexed`: `X` is added to the address. `indirect`: the operand is
    /// the address of the address.
    Wide { op: Wide, indexed: bool, indirect: bool },
    /// Move the assembly counter.
    Org,
    /// Emit raw bytes.
    Dat,
}

impl Narrow {
    /// The opcode byte.
    pub open spec fn code(self) -> u8 {
        match self {
            Narrow::Nop => 0,
            Narrow::Hlt => 1,
            Narrow::Swp => 2,
            Narrow::Tab => 3,
            Narrow::Tax => 4,
            Narrow::Txa => 5,
            Narrow::Inc => 6,
            Narrow::Dec => 7,
            Narrow::Add => 8,
            Narrow::Adc => 9,
            Narrow::Sub => 10,
            Narrow::Sbc => 11,
            Narrow::Lsr => 12,
            Narrow::Lsl => 13,
            Narrow::Clc => 14,
            Narrow::Sec => 15,
            Narrow::Put => 16,
            Narrow::Psa => 17,
            Narrow::Ppa => 18,
            Narrow::Pss => 19,
            Narrow::Pps => 20,
            Narrow::Ssp => 21,
            Narrow::Gsp => 22,
            Narrow::Brk => 23,
            Narrow::Rts => 24,
            Narrow::LdaConst => 25,
            Narrow::Get => 26,
            Narrow::Not => 27,
            Narrow::And => 28,
            Narrow::Ior => 29,
            Narrow::Xor => 30,
            Narrow::Gbf => 31,
        }
    }

    /// The operation that an opcode byte below 32 stands for.
    pub open spec fn of_code(b: u8) -> Option<Narrow> {
        if b == 0 {
            Some(Narrow::Nop)
        } else if b == 1 {
            Some(Narrow::Hlt)
        } else if b == 2 {
            Some(Narrow::Swp)
        } else if b == 3 {
            Some(Narrow::Tab)
        } else if b == 4 {
            Some(Narrow::Tax)
        } else if b == 5 {
            Some(Narrow::Txa)
        } else if b == 6 {
            Some(Narrow::Inc)
        } else if b == 7 {
            Some(Narrow::Dec)
        } else if b == 8 {
            Some(Narrow::Add)
        } else if b == 9 {
            Some(Narrow::Adc)
        } else if b == 10 {
            Some(Narrow::Sub)
        } else if b == 11 {
            Some(Narrow::Sbc)
        } else if b == 12 {
            Some(Narrow::Lsr)
        } else if b == 13 {
            Some(Narrow::Lsl)
        } else if b == 14 {
            Some(Narrow::Clc)
        } else if b == 15 {
            Some(Narrow::Sec)
        } else if b == 16 {
            Some(Narrow::Put)
        } else if b == 17 {
            Some(Narrow::Psa)
        } else if b == 18 {
            Some(Narrow::Ppa)
        } else if b == 19 {
            Some(Narrow::Pss)
        } else if b == 20 {
            Some(Narrow::Pps)
        } else if b == 21 {
            Some(Narrow::Ssp)
        } else if b == 22 {
            Some(Narrow::Gsp)
        } else if b == 23 {
            Some(Narrow::Brk)
        } else if b == 24 {
            Some(Narrow::Rts)
        } else if b == 25 {
            Some(Narrow::LdaConst)
        } else if b == 26 {
            Some(Narrow::Get)
        } else if b == 27 {
            Some(Narrow::Not)
        } else if b == 28 {
            Some(Narrow::And)
        } else if b == 29 {
            Some(Narrow::Ior)
        } else if b == 30 {
            Some(Narrow::Xor)
        } else if b == 31 {
            Some(Narrow::Gbf)
        } else {
            None
        }
    }

    /// The operation that a mnemonic names. `LdaConst` has none of its own:
    /// it is `lda` with an immediate operand.
    pub open spec fn named(s: Seq<char>) -> Option<Narrow> {
        if s == "nop"@ {
            Some(Narrow::Nop)
        } else if s == "hlt"@ {
            Some(Narrow::Hlt)
        } else if s == "swp"@ {
            Some(Narrow::Swp)
        } else if s == "tab"@ {
            Some(Narrow::Tab)
        } else if s == "tax"@ {
            Some(Narrow::Tax)
        } else if s == "txa"@ {
            Some(Narrow::Txa)
        } else if s == "inc"@ {
            Some(Narrow::Inc)
        } else if s == "dec"@ {
            Some(Narrow::Dec)
        } else if s == "add"@ {
            Some(Narrow::Add)
        } else if s == "adc"@ {
            Some(Narrow::Adc)
        } else if s == "sub"@ {
            Some(Narrow::Sub)
        } else if s == "sbc"@ {
            Some(Narrow::Sbc)
        } else if s == "lsr"@ {
            Some(Narrow::Lsr)
        } else if s == "lsl"@ {
            Some(Narrow::Lsl)
        } else if s == "clc"@ {
            Some(Narrow::Clc)
        } else if s == "sec"@ {
            Some(Narrow::Sec)
        } else if s == "put"@ {
            Some(Narrow::Put)
        } else if s == "psa"@ {
            Some(Narrow::Psa)
        } else if s == "ppa"@ {
            Some(Narrow::Ppa)
        } else if s == "pss"@ {
            Some(Narrow::Pss)
        } else if s == "pps"@ {
            Some(Narrow::Pps)
        } else if s == "ssp"@ {
            Some(Narrow::Ssp)
        } else if s == "gsp"@ {
            Some(Narrow::Gsp)
        } else if s == "brk"@ {
            Some(Narrow::Brk)
        } else if s == "rts"@ {
            Some(Narrow::Rts)
        } else if s == "get"@ {
            Some(Narrow::Get)
        } else if s == "not"@ {
            Some(Narrow::Not)
        } else if s == "and"@ {
            Some(Narrow::And)
        } else if s == "ior"@ {
            Some(Narrow::Ior)
        } else if s == "xor"@ {
            Some(Narrow::Xor)
        } else if s == "gbf"@ {
            Some(Narrow::Gbf)
        } else {
            None
        }
    }

    /// The opcode byte: below 32, so bit 7 is clear.
    pub fn opcode(self) -> (b: u8)
        ensures
            b == self.code(),
            b < 32,
    {
        match self {
            Narrow::Nop => 0,
            Narrow::Hlt => 1,
            Narrow::Swp => 2,
            Narrow::Tab => 3,
            Narrow::Tax => 4,
            Narrow::Txa => 5,
            Narrow::Inc => 6,
            Narrow::Dec => 7,
            Narrow::Add => 8,
            Narrow::Adc => 9,
            Narrow::Sub => 10,
            Narrow::Sbc => 11,
            Narrow::Lsr => 12,
            Narrow::Lsl => 13,
            Narrow::Clc => 14,
            Narrow::Sec => 15,
            Narrow::Put => 16,
            Narrow::Psa => 17,
            Narrow::Ppa => 18,
            Narrow::Pss => 19,
            Narrow::Pps => 20,
            Narrow::Ssp => 21,
            Narrow::Gsp => 22,
            Narrow::Brk => 23,
            Narrow::Rts => 24,
            Narrow::LdaConst => 25,
            Narrow::Get => 26,
            Narrow::Not => 27,
            Narrow::And => 28,
            Narrow::Ior => 29,
            Narrow::Xor => 30,
            Narrow::Gbf => 31,
        }
    }

    /// Decodes an opcode byte.
    pub fn from_u8(b: u8) -> (r: Option<Narrow>)
        ensures
            r == Narrow::of_code(b),
            r is Some <==> b < 32,
    {
        if b == 0 {
            Some(Narrow::Nop)
        } else if b == 1 {
            Some(Narrow::Hlt)
        } else if b == 2 {
            Some(Narrow::Swp)
        } else if b == 3 {
            Some(Narrow::Tab)
        } else if b == 4 {
            Some(Narrow::Tax)
        } else if b == 5 {
            Some(Narrow::Txa)
        } else if b == 6 {
            Some(Narrow::Inc)
        } else if b == 7 {
            Some(Narrow::Dec)
        } else if b == 8 {
            Some(Narrow::Add)
        } else if b == 9 {
            Some(Narrow::Adc)
        } else if b == 10 {
            Some(Narrow::Sub)
        } else if b == 11 {
            Some(Narrow::Sbc)
        } else if b == 12 {
            Some(Narrow::Lsr)
        } else if b == 13 {
            Some(Narrow::Lsl)
        } else if b == 14 {
            Some(Narrow::Clc)
        } else if b == 15 {
            Some(Narrow::Sec)
        } else if b == 16 {
            Some(Narrow::Put)
        } else if b == 17 {
            Some(Narrow::Psa)
        } else if b == 18 {
            Some(Narrow::Ppa)
        } else if b == 19 {
            Some(Narrow::Pss)
        } else if b == 20 {
            Some(Narrow::Pps)
        } else if b == 21 {
            Some(Narrow::Ssp)
        } else if b == 22 {
            Some(Narrow::Gsp)
        } else if b == 23 {
            Some(Narrow::Brk)
        } else if b == 24 {
            Some(Narrow::Rts)
        } else if b == 25 {
            Some(Narrow::LdaConst)
        } else if b == 26 {
            Some(Narrow::Get)
        } else if b == 27 {
            Some(Narrow::Not)
        } else if b == 28 {
            Some(Narrow::And)
        } else if b == 29 {
            Some(Narrow::Ior)
        } else if b == 30 {
            Some(Narrow::Xor)
        } else if b == 31 {
            Some(Narrow::Gbf)
        } else {
            None
        }
    }

    /// Looks a mnemonic up.
    pub fn from_mnemonic(s: &str) -> (r: Option<Narrow>)
        ensures
            r == Narrow::named(s@),
            r != Some(Narrow::LdaConst),
    {
        if same(s, "nop") {
            Some(Narrow::Nop)
        } else if same(s, "hlt") {
            Some(Narrow::Hlt)
        } else if same(s, "swp") {
            Some(Narrow::Swp)
        } else if same(s, "tab") {
            Some(Narrow::Tab)
        } else if same(s, "tax") {
            Some(Narrow::Tax)
        } else if same(s, "txa") {
            Some(Narrow::Txa)
        } else if same(s, "inc") {
            Some(Narrow::Inc)
        } else if same(s, "dec") {
            Some(Narrow::Dec)
        } else if same(s, "add") {
            Some(Narrow::Add)
        } else if same(s, "adc") {
            Some(Narrow::Adc)
        } else if same(s, "sub") {
            Some(Narrow::Sub)
        } else if same(s, "sbc") {
            Some(Narrow::Sbc)
        } else if same(s, "lsr") {
            Some(Narrow::Lsr)
        } else if same(s, "lsl") {
            Some(Narrow::Lsl)
        } else if same(s, "clc") {
            Some(Narrow::Clc)
        } else if same(s, "sec") {
            Some(Narrow::Sec)
        } else if same(s, "put") {
            Some(Narrow::Put)
        } else if same(s, "psa") {
            Some(Narrow::Psa)
        } else if same(s, "ppa") {
            Some(Narrow::Ppa)
        } else if same(s, "pss") {
            Some(Narrow::Pss)
        } else if same(s, "pps") {
            Some(Narrow::Pps)
        } else if same(s, "ssp") {
            Some(Narrow::Ssp)
        } else if same(s, "gsp") {
            Some(Narrow::Gsp)
        } else if same(s, "brk") {
            Some(Narrow::Brk)
        } else if same(s, "rts") {
            Some(Narrow::Rts)
        } else if same(s, "get") {
            Some(Narrow::Get)
        } else if same(s, "not") {
            Some(Narrow::Not)
        } else if same(s, "and") {
            Some(Narrow::And)
        } else if same(s, "ior") {
            Some(Narrow::Ior)
        } else if same(s, "xor") {
            Some(Narrow::Xor)
        } else if same(s, "gbf") {
            Some(Narrow::Gbf)
        } else {
            None
        }
    }
}

impl Wide {
    /// The operation selector, bits 2..0 of the opcode.
    pub open spec fn selector(self) -> u8 {
        match self {
            Wide::Lda => 0,
            Wide::Sta => 1,
            Wide::Jmp => 2,
            Wide::Jsr => 3,
            Wide::Jez => 4,
            Wide::Jgt => 5,
        }
    }

    /// The operation that a selector stands for.
    pub open spec fn of_selector(b: u8) -> Option<Wide> {
        if b == 0 {
            Some(Wide::Lda)
        } else if b == 1 {
            Some(Wide::Sta)
        } else if b == 2 {
            Some(Wide::Jmp)
        } else if b == 3 {
            Some(Wide::Jsr)
        } else if b == 4 {
            Some(Wide::Jez)
        } else if b == 5 {
            Some(Wide::Jgt)
        } else {
            None
        }
    }

    /// The operation that a mnemonic names.
    pub open spec fn named(s: Seq<char>) -> Option<Wide> {
        if s == "lda"@ {
            Some(Wide::Lda)
        } else if s == "sta"@ {
            Some(Wide::Sta)
        } else if s == "jmp"@ {
            Some(Wide::Jmp)
        } else if s == "jsr"@ {
            Some(Wide::Jsr)
        } else if s == "jez"@ {
            Some(Wide::Jez)
        } else if s == "jgt"@ {
            Some(Wide::Jgt)
        } else {
            None
        }
    }

    /// The operation selector.
    pub fn sel(self) -> (b: u8)
        ensures
            b == self.selector(),
            b <= 5,
    {
        match self {
            Wide::Lda => 0,
            Wide::Sta => 1,
            Wide::Jmp => 2,
            Wide::Jsr => 3,
            Wide::Jez => 4,
            Wide::Jgt => 5,
        }
    }

    /// Decodes a selector.
    pub fn from_selector(b: u8) -> (r: Option<Wide>)
        ensures
            r == Wide::of_selector(b),
            r is Some <==> b <= 5,
    {
        if b == 0 {
            Some(Wide::Lda)
        } else if b == 1 {
            Some(Wide::Sta)
        } else if b == 2 {
            Some(Wide::Jmp)
        } else if b == 3 {
            Some(Wide::Jsr)
        } else if b == 4 {
            Some(Wide::Jez)
        } else if b == 5 {
            Some(Wide::Jgt)
        } else {
            None
        }
    }

    /// Looks a mnemonic up.
    pub fn from_mnemonic(s: &str) -> (r: Option<Wide>)
        ensures
            r == Wide::named(s@),
    {
        if same(s, "lda") {
            Some(Wide::Lda)
        } else if same(s, "sta") {
            Some(Wide::Sta)
        } else if same(s, "jmp") {
            Some(Wide::Jmp)
        } else if same(s, "jsr") {
            Some(Wide::Jsr)
        } else if same(s, "jez") {
            Some(Wide::Jez)
        } else if same(s, "jgt") {
            Some(Wide::Jgt)
        } else {
            None
        }
    }
}

/// 1 for a set flag, 0 for a clear one.
pub open spec fn bit(flag: bool) -> int {
    if flag {
        1
    } else {
        0
    }
}

impl Instruction {
    /// The opcode byte. A wide opcode is 128, plus 16 if indirect, plus 8 if
    /// indexed, plus the selector. The directives get the two bytes after
    /// the last wide opcode; they never reach an image.
    pub open spec fn code(self) -> u8 {
        match self {
            Instruction::Narrow(n) => n.code(),
            Instruction::Wide { op, indexed, indirect } => (128 + 16 * bit(indirect) + 8 * bit(
                indexed,
            ) + op.selector()) as u8,
            Instruction::Org => 0x9E,
            Instruction::Dat => 0x9F,
        }
    }

    /// The instruction that an opcode byte stands for, if any.
    pub open spec fn of_code(b: u8) -> Option<Instruction> {
        if b < 32 {
            match Narrow::of_code(b) {
                Some(n) => Some(Instruction::Narrow(n)),
                None => None,
            }
        } else if b == 0x9E {
            Some(Instruction::Org)
        } else if b == 0x9F {
            Some(Instruction::Dat)
        } else if 128 <= b < 160 {
            match Wide::of_selector(((b - 128) % 8) as u8) {
                Some(op) => Some(
                    Instruction::Wide {
                        op,
                        indexed: (b - 128) / 8 % 2 == 1,
                        indirect: (b - 128) / 16 == 1,
                    },
                ),
                None => None,
            }
        } else {
            None
        }
    }

    /// The opcode byte.
    pub fn opcode(self) -> (b: u8)
        ensures
            b == self.code(),
            self is Narrow ==> b < 128,
            self is Wide ==> 128 <= b < 160,
    {
        match self {
            Instruction::Narrow(n) => n.opcode(),
            Instruction::Wide { op, indexed, indirect } => {
                let mut b: u8 = 128 + op.sel();
                if indexed {
                    b = b + 8;
                }
                if indirect {
                    b = b + 16;
                }
                b
            },
            Instruction::Org => 0x9E,
            Instruction::Dat => 0x9F,
        }
    }

    /// Decodes an opcode byte.
    pub fn from_u8(b: u8) -> (r: Option<Instruction>)
        ensures
            r == Instruction::of_code(b),
    {
        if b < 32 {
            match Narrow::from_u8(b) {
                Some(n) => Some(Instruction::Narrow(n)),
                None => None,
            }
        } else if b == 0x9E {
            Some(Instruction::Org)
        } else if b == 0x9F {
            Some(Instruction::Dat)
        } else if 128 <= b && b < 160 {
            let low: u8 = b - 128;
            match Wide::from_selector(low % 8) {
                Some(op) => Some(
                    Instruction::Wide { op, indexed: low / 8 % 2 == 1, indirect: low / 16 == 1 },
                ),
                None => None,
            }
        } else {
            None
        }
    }
}

/// Decoding the opcode of an instruction gives the instruction back.
pub proof fn lemma_decode_encode(i: Instruction)
    ensures
        Instruction::of_code(i.code()) == Some(i),
{
}

/// A byte that decodes to an instruction is the opcode of that instruction.
pub proof fn lemma_encode_decode(b: u8)
    ensures
        Instruction::of_code(b) matches Some(i) ==> i.code() == b,
{
}

/// Bit 7 of an opcode tells the width: it is clear in every narrow opcode
/// and set in every wide one.
pub proof fn lemma_width_marker(i: Instruction)
    ensures
        i is Narrow ==> i.code() < 128,
        i is Wide ==> i.code() >= 128,
{
}

} // verus!
