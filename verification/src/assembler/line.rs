//! The intermediate form of a program: one record for each line that asks
//! for something.

use vstd::prelude::*;
use super::isa::{Instruction, Narrow};

verus! {

/// What an instruction works on.
#[derive(Debug)]
pub enum Operand {
    /// Nothing.
    Absent,
    /// An 8-bit value.
    Byte(u8),
    /// A 16-bit address.
    Addr(u16),
    /// A label not yet resolved: its name, with `+` or `-` and an offset
    /// where the source gave one.
    Label(String),
    /// Raw bytes, for `dat`.
    ByteBlock(Vec<u8>),
}

/// The mathematical image of an [`Operand`].
pub enum OperandView {
    Absent,
    Byte(u8),
    Addr(u16),
    Label(Seq<char>),
    ByteBlock(Seq<u8>),
}

impl View for Operand {
    type V = OperandView;

    open spec fn view(&self) -> OperandView {
        match self {
            Operand::Absent => OperandView::Absent,
            Operand::Byte(b) => OperandView::Byte(*b),
            Operand::Addr(a) => OperandView::Addr(*a),
            Operand::Label(l) => OperandView::Label(l@),
            Operand::ByteBlock(b) => OperandView::ByteBlock(b@),
        }
    }
}

/// One line of a program after parsing.
#[derive(Debug)]
pub struct Line {
    pub instruction: Instruction,
    pub operand: Operand,
    /// The number of the source line, counted from 1.
    pub program_text_line: usize,
}

/// The mathematical image of a [`Line`].
pub struct LineView {
    pub instruction: Instruction,
    pub operand: OperandView,
    pub program_text_line: usize,
}

impl View for Line {
    type V = LineView;

    open spec fn view(&self) -> LineView {
        LineView {
            instruction: self.instruction,
            operand: self.operand@,
            program_text_line: self.program_text_line,
        }
    }
}

impl LineView {
    /// Whether the operand is of a shape that the instruction takes: none
    /// for a narrow operation, a byte for an immediate load, an address or
    /// a label for a wide operation, an address for `org`, a byte or a
    /// block for `dat`.
    pub open spec fn wf(self) -> bool {
        match self.instruction {
            Instruction::Narrow(Narrow::LdaConst) => self.operand is Byte,
            Instruction::Narrow(_) => self.operand is Absent,
            Instruction::Wide { .. } => self.operand is Addr || self.operand is Label,
            Instruction::Org => self.operand is Addr,
            Instruction::Dat => self.operand is Byte || self.operand is ByteBlock,
        }
    }

    /// How many bytes of the image the line takes.
    pub open spec fn size(self) -> int {
        match self.instruction {
            Instruction::Narrow(Narrow::LdaConst) => 2,
            Instruction::Narrow(_) => 1,
            Instruction::Wide { .. } => 3,
            Instruction::Org => 0,
            Instruction::Dat => match self.operand {
                OperandView::ByteBlock(b) => b.len() as int,
                _ => 1,
            },
        }
    }
}

/// The mathematical images of a sequence of lines.
pub open spec fn line_views(lines: Seq<Line>) -> Seq<LineView> {
    lines.map_values(|l: Line| l@)
}

impl Default for Line {
    fn default() -> (l: Line)
        ensures
            l@ == (LineView {
                instruction: Instruction::Narrow(Narrow::Nop),
                operand: OperandView::Absent,
                program_text_line: 0,
            }),
    {
        Line {
            instruction: Instruction::Narrow(Narrow::Nop),
            operand: Operand::Absent,
            program_text_line: 0,
        }
    }
}

} // verus!
