//! The syntax of an operand: its marks and what they enclose.

use vstd::prelude::*;
use vstd::string::*;
use crate::text::chars_of;
use crate::utils::{literal_value, parse_int_literal};

verus! {

/// An operand taken apart.
pub struct ParsedOperand<'a> {
    /// The operand without its marks.
    pub literal: &'a str,
    /// The value of `literal` where it is a 16-bit integer literal, else 0.
    pub value: u16,
    /// `literal` is no 16-bit integer literal: a name, or the text of a
    /// string or a list.
    pub is_label: bool,
    /// The operand ends in `,x`.
    pub is_offset: bool,
    /// `literal` stood in round brackets.
    pub is_indirect: bool,
    /// `literal` stood in double quotes.
    pub is_string: bool,
    /// The operand starts with `#`.
    pub is_literal: bool,
}

/// The mathematical image of a [`ParsedOperand`].
pub struct OperandSyntax {
    pub literal: Seq<char>,
    pub value: u16,
    pub is_label: bool,
    pub is_offset: bool,
    pub is_indirect: bool,
    pub is_string: bool,
    pub is_literal: bool,
}

impl<'a> View for ParsedOperand<'a> {
    type V = OperandSyntax;

    open spec fn view(&self) -> OperandSyntax {
        OperandSyntax {
            literal: self.literal@,
            value: self.value,
            is_label: self.is_label,
            is_offset: self.is_offset,
            is_indirect: self.is_indirect,
            is_string: self.is_string,
            is_literal: self.is_literal,
        }
    }
}

/// Whether `op` starts with `#`: an immediate operand.
pub open spec fn marks_immediate(op: Seq<char>) -> bool {
    op.len() > 0 && op[0] == '#'
}

/// Whether `op` ends in `,x`: an indexed operand.
pub open spec fn marks_indexed(op: Seq<char>) -> bool {
    op.len() >= 2 && op[op.len() - 2] == ',' && op[op.len() - 1] == 'x'
}

/// `op` without the mark of an immediate or of an indexed operand.
pub open spec fn unmarked(op: Seq<char>) -> Seq<char> {
    if marks_immediate(op) {
        op.skip(1)
    } else if marks_indexed(op) {
        op.take(op.len() - 2)
    } else {
        op
    }
}

/// How the operand `op` reads. An immediate operand cannot be indexed; a
/// quote or a bracket that opens has to close at the end. What is left
/// inside the marks is a 16-bit integer literal or, failing that, a name.
pub open spec fn operand_syntax(op: Seq<char>) -> Result<OperandSyntax, Seq<char>> {
    let core = unmarked(op);
    let is_string = core.len() > 0 && core[0] == '"';
    let is_indirect = core.len() > 0 && core[0] == '(';
    if marks_immediate(op) && marks_indexed(op) {
        Err("literal operand cannot be offset"@)
    } else if is_string && (core.len() < 2 || core.last() != '"') {
        Err("string operand with no close quote"@)
    } else if is_indirect && core.last() != ')' {
        Err("indirect address operand with no close bracket"@)
    } else {
        let literal = if is_string || is_indirect {
            core.subrange(1, core.len() - 1)
        } else {
            core
        };
        let number = literal_value::<u16>(literal);
        Ok(
            OperandSyntax {
                literal,
                value: match number {
                    Ok(v) => v,
                    Err(_) => 0,
                },
                is_label: number is Err,
                is_offset: marks_indexed(op),
                is_indirect,
                is_string,
                is_literal: marks_immediate(op),
            },
        )
    }
}

/// The outcome of `parse_op` with mathematical images in place of the
/// values.
pub open spec fn syntax_text(r: Result<ParsedOperand, String>) -> Result<OperandSyntax, Seq<char>> {
    match r {
        Ok(p) => Ok(p@),
        Err(m) => Err(m@),
    }
}

/// Takes the operand `op` apart.
pub fn parse_op<'a>(op: &'a str) -> (r: Result<ParsedOperand<'a>, String>)
    ensures
        syntax_text(r) == operand_syntax(op@),
{
    let v = chars_of(op);
    let n = v.len();
    let is_literal = n > 0 && v[0] == '#';
    let is_offset = n >= 2 && v[n - 2] == ',' && v[n - 1] == 'x';
    if is_literal && is_offset {
        return Err(String::from_str("literal operand cannot be offset"));
    }
    let from: usize = if is_literal {
        1
    } else {
        0
    };
    let to: usize = if is_offset {
        n - 2
    } else {
        n
    };
    let ghost core = unmarked(op@);
    assert(core =~= v@.subrange(from as int, to as int));
    let is_string = to > from && v[from] == '"';
    let is_indirect = to > from && v[from] == '(';
    if is_string && (to - from < 2 || v[to - 1] != '"') {
        return Err(String::from_str("string operand with no close quote"));
    }
    if is_indirect && v[to - 1] != ')' {
        return Err(String::from_str("indirect address operand with no close bracket"));
    }
    let enclosed = is_string || is_indirect;
    let a: usize = if enclosed {
        from + 1
    } else {
        from
    };
    let b: usize = if enclosed {
        to - 1
    } else {
        to
    };
    let literal = op.substring_char(a, b);
    proof {
        if enclosed {
            assert(core.subrange(1, core.len() - 1) =~= v@.subrange(a as int, b as int));
        }
    }
    let (value, is_label) = match parse_int_literal::<u16>(literal) {
        Ok(v) => (v, false),
        Err(_) => (0, true),
    };
    Ok(ParsedOperand { literal, value, is_label, is_offset, is_indirect, is_string, is_literal })
}

} // verus!
