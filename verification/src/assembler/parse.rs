//! The line parser: from one line of source text to a line record, with
//! labels bound and macros expanded on the way.

use vstd::prelude::*;
use vstd::string::*;
use vstd::utf8::{encode_utf8, is_ascii_chars};
use crate::text::{
    before, chars_of, copy_texts, decimal, decimal_text, find, position, replace_all, replaced,
    same, split, split_on, texts, trim, trimmed,
};
use crate::utils::{literal_value, message_text, parse_int_literal};
use super::assembler::{AsmState, Assembler, IMAGE_LIMIT, MACRO_DEPTH};
use super::isa::{Instruction, Narrow, Wide};
use super::line::{line_views, Line, LineView, Operand, OperandView};
use super::operand::{operand_syntax, parse_op, OperandSyntax, ParsedOperand};

verus! {

/// The value of the constant `name`, or the message that it is not defined.
pub open spec fn constant_value(constants: Map<Seq<char>, u8>, name: Seq<char>) -> Result<
    u8,
    Seq<char>,
> {
    if constants.dom().contains(name) {
        Ok(constants[name])
    } else {
        Err("undefined constant "@ + name)
    }
}

/// The byte that `s` stands for, white space at its ends aside: an 8-bit
/// integer literal or, failing that, the name of a constant.
pub open spec fn byte_value(constants: Map<Seq<char>, u8>, s: Seq<char>) -> Result<u8, Seq<char>> {
    match literal_value::<u8>(trimmed(s)) {
        Ok(v) => Ok(v),
        Err(_) => constant_value(constants, trimmed(s)),
    }
}

/// `bytes` put in front of what `rest` holds; the failure of `rest` where
/// it is one.
pub open spec fn prepended(bytes: Seq<u8>, rest: Result<Seq<u8>, Seq<char>>) -> Result<
    Seq<u8>,
    Seq<char>,
> {
    match rest {
        Ok(more) => Ok(bytes + more),
        Err(e) => Err(e),
    }
}

/// The bytes that the items of a list stand for, or the failure of the
/// first item that stands for none.
pub open spec fn byte_list(constants: Map<Seq<char>, u8>, items: Seq<Seq<char>>) -> Result<
    Seq<u8>,
    Seq<char>,
>
    decreases items.len(),
{
    if items.len() == 0 {
        Ok(Seq::empty())
    } else {
        match byte_value(constants, items[0]) {
            Ok(b) => prepended(seq![b], byte_list(constants, items.drop_first())),
            Err(e) => Err(e),
        }
    }
}

/// The value of a numeric operand as a byte, or the message that it is too
/// large for one.
pub open spec fn fitting_byte(p: OperandSyntax) -> Result<u8, Seq<char>> {
    if p.value > 255 {
        Err("operand "@ + p.literal + " does not fit in a byte"@)
    } else {
        Ok(p.value as u8)
    }
}

/// A line record for source line `index`, counted from 0.
pub open spec fn record(instruction: Instruction, operand: OperandView, index: usize) -> LineView {
    LineView { instruction, operand, program_text_line: (index + 1) as usize }
}

/// The record of `lda` with the immediate operand `p`: the value of the
/// number, or of the constant that `p` names.
pub open spec fn immediate_line(constants: Map<Seq<char>, u8>, p: OperandSyntax, index: usize)
    -> Result<LineView, Seq<char>> {
    let byte = if p.is_label {
        constant_value(constants, p.literal)
    } else {
        fitting_byte(p)
    };
    match byte {
        Ok(b) => Ok(record(Instruction::Narrow(Narrow::LdaConst), OperandView::Byte(b), index)),
        Err(e) => Err(e),
    }
}

/// The record of `dat` with the operand `p`: the bytes of a string in
/// UTF-8, the bytes of a list, or one byte for a number.
pub open spec fn data_line(constants: Map<Seq<char>, u8>, p: OperandSyntax, index: usize) -> Result<
    LineView,
    Seq<char>,
> {
    if p.is_string {
        Ok(record(Instruction::Dat, OperandView::ByteBlock(encode_utf8(p.literal)), index))
    } else if p.is_label {
        match byte_list(constants, split(p.literal, ',')) {
            Ok(bytes) => Ok(record(Instruction::Dat, OperandView::ByteBlock(bytes), index)),
            Err(e) => Err(e),
        }
    } else {
        match fitting_byte(p) {
            Ok(b) => Ok(record(Instruction::Dat, OperandView::Byte(b), index)),
            Err(e) => Err(e),
        }
    }
}

/// The record of the wide operation `op` with the operand `p`: an address,
/// or a label made of ASCII characters to resolve later.
pub open spec fn wide_line(op: Wide, p: OperandSyntax, index: usize) -> Result<LineView, Seq<char>> {
    let instruction = Instruction::Wide { op, indexed: p.is_offset, indirect: p.is_indirect };
    if !p.is_label {
        Ok(record(instruction, OperandView::Addr(p.value), index))
    } else if is_ascii_chars(p.literal) {
        Ok(record(instruction, OperandView::Label(p.literal), index))
    } else {
        Err("string literal \""@ + p.literal + "\" contains non-ascii characters"@)
    }
}

/// Whether `instr` is one of the mnemonics that take an operand.
pub open spec fn takes_operand(instr: Seq<char>) -> bool {
    Wide::named(instr) is Some || instr == "org"@ || instr == "dat"@
}

/// The record of a mnemonic that takes an operand. The operand has to be
/// there; only `lda` takes an immediate one, only `dat` a string, and only
/// the wide operations an indexed or an indirect one. The address of `org`
/// is a number: the counter moves while the lines are read, when a label
/// may not be bound yet.
pub open spec fn operand_line(
    constants: Map<Seq<char>, u8>,
    instr: Seq<char>,
    op: Seq<char>,
    index: usize,
) -> Result<LineView, Seq<char>> {
    if op.len() == 0 {
        Err("instr "@ + instr + " requires op, found none"@)
    } else {
        match operand_syntax(op) {
            Err(e) => Err(e),
            Ok(p) => if p.is_literal && instr != "lda"@ {
                Err("literal operands are not allowed for non-lda instructions"@)
            } else if p.is_string && instr != "dat"@ {
                Err("string operands are not allowed for non-dat instructions"@)
            } else if p.is_offset && Wide::named(instr) is None {
                Err("offset operands are not allowed for "@ + instr)
            } else if p.is_indirect && Wide::named(instr) is None {
                Err("indirect operands are not allowed for "@ + instr)
            } else if p.is_literal {
                immediate_line(constants, p, index)
            } else if instr == "org"@ {
                if p.is_label {
                    Err("org requires a numeric address, found "@ + p.literal)
                } else {
                    Ok(record(Instruction::Org, OperandView::Addr(p.value), index))
                }
            } else if instr == "dat"@ {
                data_line(constants, p, index)
            } else {
                match Wide::named(instr) {
                    Some(w) => wide_line(w, p, index),
                    None => Err("unrecognised instruction "@ + instr),
                }
            },
        }
    }
}

/// The record of the instruction with mnemonic `instr` and operand text
/// `op`. A narrow mnemonic takes no operand.
pub open spec fn instruction_of(
    constants: Map<Seq<char>, u8>,
    instr: Seq<char>,
    op: Seq<char>,
    index: usize,
) -> Result<LineView, Seq<char>> {
    match Narrow::named(instr) {
        Some(n) => if op.len() == 0 {
            Ok(record(Instruction::Narrow(n), OperandView::Absent, index))
        } else {
            Err("instr "@ + instr + " takes no op, found "@ + op)
        },
        None => if takes_operand(instr) {
            operand_line(constants, instr, op, index)
        } else {
            Err("unrecognised instruction "@ + instr)
        },
    }
}

/// Where the assembly counter stands after `line`, from where it stood
/// before: `org` sets it, every other line moves it by its size.
pub open spec fn advanced(counter: usize, line: LineView) -> int {
    match (line.instruction, line.operand) {
        (Instruction::Org, OperandView::Addr(a)) => a as int,
        _ => counter + line.size(),
    }
}

/// The text that stands for the `n`-th argument in a macro body.
pub open spec fn parameter(n: nat) -> Seq<char> {
    "$"@ + decimal(n)
}

/// A line of a macro body with the arguments in place of the parameters.
/// The last parameter is replaced first, so that `$1` is not mistaken for
/// the start of `$10`.
pub open spec fn substituted(line: Seq<char>, args: Seq<Seq<char>>) -> Seq<char>
    decreases args.len(),
{
    if args.len() == 0 {
        line
    } else {
        substituted(replaced(line, parameter(args.len()), args.last()), args.drop_last())
    }
}

impl AsmState {
    /// The state with `name` bound to the assembly counter.
    pub open spec fn with_label(self, name: Seq<char>) -> AsmState {
        AsmState { labels: self.labels.insert(name, self.counter), ..self }
    }

    /// The state with one more line.
    pub open spec fn with_line(self, line: LineView) -> AsmState {
        AsmState { lines: self.lines.push(line), ..self }
    }

    /// The state with the assembly counter at `counter`.
    pub open spec fn with_counter(self, counter: usize) -> AsmState {
        AsmState { counter, ..self }
    }
}

/// What reading the source line `s`, number `index` counted from 0, does
/// to the state `st`, and what it yields: a line record, nothing, or a
/// message. `depth` is how deep macros may still nest.
///
/// The line is trimmed. An empty line yields nothing; one that starts with
/// `#` is a misplaced directive. What follows the first `;` is a comment.
/// Where there is a `:`, what stands before the first one is a label, bound
/// to the assembly counter; a label can be bound only once. What is left is
/// a macro invocation if it starts with `!`; else a mnemonic, up to the
/// first space, and its operand.
pub open spec fn read_line_spec(st: AsmState, s: Seq<char>, index: usize, depth: nat) -> (
    AsmState,
    Result<Option<LineView>, Seq<char>>,
)
    decreases depth, 0nat,
{
    let t = trimmed(s);
    let code = before(t, ';');
    let colon = position(code, ':');
    let labelled = colon < code.len();
    let label = trimmed(code.take(colon));
    let st1 = if labelled {
        st.with_label(label)
    } else {
        st
    };
    let main = if labelled {
        trimmed(code.skip(colon + 1))
    } else {
        code
    };
    let space = position(main, ' ');
    if t.len() == 0 {
        (st, Ok(None))
    } else if t[0] == '#' {
        (st, Err("directive \""@ + t + "\" after the start of instructions"@))
    } else if trimmed(code).len() == 0 {
        (st, Ok(None))
    } else if labelled && st.labels.dom().contains(label) {
        (st, Err("label "@ + label + " is defined twice"@))
    } else if main.len() == 0 {
        (st1, Ok(None))
    } else if main[0] == '!' {
        if depth == 0 {
            (st1, Err("macros nest too deeply"@))
        } else {
            let (st2, r) = expand_macro_spec(st1, main, index, (depth - 1) as nat);
            (
                st2,
                match r {
                    Ok(_) => Ok(None),
                    Err(e) => Err(e),
                },
            )
        }
    } else {
        match instruction_of(st1.constants, main.take(space), trimmed(main.skip(space)), index) {
            Err(e) => (st1, Err(e)),
            Ok(line) => if advanced(st1.counter, line) > IMAGE_LIMIT {
                (st1, Err("program does not fit in 65536 bytes"@))
            } else {
                (st1.with_counter(advanced(st1.counter, line) as usize), Ok(Some(line)))
            },
        }
    }
}

/// What the macro invocation `line` does to the state `st`: the lines of
/// the macro's body, with the arguments in place of the parameters, are
/// read one after the other and their records added to the state.
pub open spec fn expand_macro_spec(st: AsmState, line: Seq<char>, index: usize, depth: nat) -> (
    AsmState,
    Result<(), Seq<char>>,
)
    decreases depth, 2nat, 0nat,
{
    let words = split(trimmed(line), ' ');
    let name = macro_name(words[0]);
    if st.macros.dom().contains(name) {
        expand_from(st, st.macros[name], 0, words.skip(1), name, index, depth)
    } else {
        (st, Err("macro "@ + name + " not found"@))
    }
}

/// What the lines of `body` from the `i`-th on do to the state `st`.
pub open spec fn expand_from(
    st: AsmState,
    body: Seq<Seq<char>>,
    i: nat,
    args: Seq<Seq<char>>,
    name: Seq<char>,
    index: usize,
    depth: nat,
) -> (AsmState, Result<(), Seq<char>>)
    decreases depth, 1nat, body.len() - i,
{
    if i >= body.len() {
        (st, Ok(()))
    } else {
        let (st1, r) = read_line_spec(st, substituted(body[i as int], args), index, depth);
        match r {
            Err(e) => (st1, Err("error in macro "@ + name + ": "@ + e)),
            Ok(Some(line)) => expand_from(st1.with_line(line), body, i + 1, args, name, index, depth),
            Ok(None) => expand_from(st1, body, i + 1, args, name, index, depth),
        }
    }
}

/// The outcome of parsing an instruction with mathematical images in place
/// of the values.
pub open spec fn line_text(r: Result<Line, String>) -> Result<LineView, Seq<char>> {
    match r {
        Ok(l) => Ok(l@),
        Err(m) => Err(m@),
    }
}

/// The outcome of reading a line with mathematical images in place of the
/// values.
pub open spec fn outcome_text(r: Result<Option<Line>, String>) -> Result<
    Option<LineView>,
    Seq<char>,
> {
    match r {
        Ok(Some(l)) => Ok(Some(l@)),
        Ok(None) => Ok(None),
        Err(m) => Err(m@),
    }
}

/// The outcome of reading bytes with mathematical images in place of the
/// values.
pub open spec fn bytes_text(r: Result<Vec<u8>, String>) -> Result<Seq<u8>, Seq<char>> {
    match r {
        Ok(b) => Ok(b@),
        Err(m) => Err(m@),
    }
}

/// The name of the macro that the first word of an invocation gives: the
/// word without its `!`.
pub open spec fn macro_name(word: Seq<char>) -> Seq<char> {
    if word.len() > 0 {
        word.skip(1)
    } else {
        word
    }
}

/// The value of a numeric operand as a byte.
pub fn fit_byte(p: &ParsedOperand) -> (r: Result<u8, String>)
    ensures
        message_text(r) == fitting_byte(p@),
{
    if p.value > 255 {
        let mut m = String::from_str("operand ");
        m.append(p.literal);
        m.append(" does not fit in a byte");
        Err(m)
    } else {
        Ok(p.value as u8)
    }
}

/// Puts the arguments of a macro invocation, the words after the first, in
/// place of the parameters in a line of the macro's body.
pub fn substitute(line: &str, words: &Vec<String>) -> (r: String)
    requires
        words.len() >= 1,
    ensures
        r@ == substituted(line@, texts(words@).skip(1)),
{
    let ghost args = texts(words@).skip(1);
    let mut cur = String::from_str(line);
    let mut k: usize = words.len() - 1;
    assert(args.take(k as int) =~= args);
    while k > 0
        invariant
            k < words.len(),
            args == texts(words@).skip(1),
            substituted(cur@, args.take(k as int)) == substituted(line@, args),
        decreases k,
    {
        let ghost upto = args.take(k as int);
        assert(upto.drop_last() =~= args.take(k - 1));
        assert(upto.last() == words@[k as int]@);
        let mut pattern = String::from_str("$");
        let number = decimal_text(k);
        pattern.append(number.as_str());
        cur = replace_all(cur.as_str(), pattern.as_str(), words[k].as_str());
        k -= 1;
    }
    cur
}

impl Assembler {
    /// The value of the constant `name`.
    pub fn constant(&self, name: &str) -> (r: Result<u8, String>)
        ensures
            message_text(r) == constant_value(self@.constants, name@),
    {
        match self.constants.get(name) {
            Some(v) => Ok(*v),
            None => {
                let mut m = String::from_str("undefined constant ");
                m.append(name);
                Err(m)
            },
        }
    }

    /// The byte that `s` stands for: an 8-bit integer literal or the name
    /// of a constant, with or without white space around it.
    pub fn get_val_from_string(&self, s: &str) -> (r: Result<u8, String>)
        ensures
            message_text(r) == byte_value(self@.constants, s@),
    {
        let t = trim(s);
        match parse_int_literal::<u8>(t) {
            Ok(v) => Ok(v),
            Err(_) => self.constant(t),
        }
    }

    /// The bytes that the items of the list `literal` stand for.
    pub fn byte_list(&self, literal: &str) -> (r: Result<Vec<u8>, String>)
        ensures
            bytes_text(r) == byte_list(self@.constants, split(literal@, ',')),
    {
        let items = split_on(literal, ',');
        let ghost all = texts(items@);
        let mut bytes: Vec<u8> = Vec::new();
        let mut i: usize = 0;
        assert(all.skip(0) =~= all);
        assert(bytes@ + byte_list(self@.constants, all)->Ok_0 =~= byte_list(
            self@.constants,
            all,
        )->Ok_0);
        while i < items.len()
            invariant
                i <= items.len(),
                all == texts(items@),
                all == split(literal@, ','),
                prepended(bytes@, byte_list(self@.constants, all.skip(i as int))) == byte_list(
                    self@.constants,
                    all,
                ),
            decreases items.len() - i,
        {
            let ghost rest = all.skip(i as int);
            assert(rest.drop_first() =~= all.skip(i + 1));
            assert(rest[0] == items@[i as int]@);
            match self.get_val_from_string(items[i].as_str()) {
                Ok(b) => {
                    let ghost before = bytes@;
                    bytes.push(b);
                    proof {
                        let tail = byte_list(self@.constants, all.skip(i + 1));
                        if tail is Ok {
                            assert(bytes@ + tail->Ok_0 =~= before + (seq![b] + tail->Ok_0));
                        }
                    }
                },
                Err(e) => {
                    assert(byte_list(self@.constants, rest) == Err::<Seq<u8>, Seq<char>>(e@));
                    return Err(e);
                },
            }
            i += 1;
        }
        assert(bytes@ + Seq::<u8>::empty() =~= bytes@);
        Ok(bytes)
    }

    /// The record of `lda` with an immediate operand.
    fn immediate(&self, p: &ParsedOperand, index: usize) -> (r: Result<Line, String>)
        requires
            index < usize::MAX,
        ensures
            line_text(r) == immediate_line(self@.constants, p@, index),
            r matches Ok(l) ==> l@.wf(),
    {
        let byte = if p.is_label {
            self.constant(p.literal)
        } else {
            fit_byte(p)
        };
        match byte {
            Ok(b) => Ok(
                Line {
                    instruction: Instruction::Narrow(Narrow::LdaConst),
                    operand: Operand::Byte(b),
                    program_text_line: index + 1,
                },
            ),
            Err(e) => Err(e),
        }
    }

    /// The record of `dat`.
    fn data(&self, p: &ParsedOperand, index: usize) -> (r: Result<Line, String>)
        requires
            index < usize::MAX,
        ensures
            line_text(r) == data_line(self@.constants, p@, index),
            r matches Ok(l) ==> l@.wf(),
    {
        let operand = if p.is_string {
            Operand::ByteBlock(p.literal.as_bytes_vec())
        } else if p.is_label {
            match self.byte_list(p.literal) {
                Ok(bytes) => Operand::ByteBlock(bytes),
                Err(e) => {
                    return Err(e);
                },
            }
        } else {
            match fit_byte(p) {
                Ok(b) => Operand::Byte(b),
                Err(e) => {
                    return Err(e);
                },
            }
        };
        Ok(Line { instruction: Instruction::Dat, operand, program_text_line: index + 1 })
    }

    /// The record of a mnemonic that takes an operand.
    fn with_operand(&self, instr: &str, op: &str, index: usize) -> (r: Result<Line, String>)
        requires
            index < usize::MAX,
        ensures
            line_text(r) == operand_line(self@.constants, instr@, op@, index),
            r matches Ok(l) ==> l@.wf(),
    {
        if op.is_empty() {
            let mut m = String::from_str("instr ");
            m.append(instr);
            m.append(" requires op, found none");
            return Err(m);
        }
        let p = match parse_op(op) {
            Ok(p) => p,
            Err(e) => {
                return Err(e);
            },
        };
        let is_dat = same(instr, "dat");
        if p.is_literal && !same(instr, "lda") {
            return Err(String::from_str("literal operands are not allowed for non-lda instructions"));
        }
        if p.is_string && !is_dat {
            return Err(String::from_str("string operands are not allowed for non-dat instructions"));
        }
        let wide = Wide::from_mnemonic(instr);
        if p.is_offset && wide.is_none() {
            let mut m = String::from_str("offset operands are not allowed for ");
            m.append(instr);
            return Err(m);
        }
        if p.is_indirect && wide.is_none() {
            let mut m = String::from_str("indirect operands are not allowed for ");
            m.append(instr);
            return Err(m);
        }
        if p.is_literal {
            return self.immediate(&p, index);
        }
        if same(instr, "org") {
            if p.is_label {
                let mut m = String::from_str("org requires a numeric address, found ");
                m.append(p.literal);
                return Err(m);
            }
            return Ok(
                Line {
                    instruction: Instruction::Org,
                    operand: Operand::Addr(p.value),
                    program_text_line: index + 1,
                },
            );
        }
        if is_dat {
            return self.data(&p, index);
        }
        match wide {
            Some(w) => {
                let instruction = Instruction::Wide {
                    op: w,
                    indexed: p.is_offset,
                    indirect: p.is_indirect,
                };
                if !p.is_label {
                    Ok(Line { instruction, operand: Operand::Addr(p.value), program_text_line: index + 1 })
                } else if p.literal.is_ascii() {
                    Ok(
                        Line {
                            instruction,
                            operand: Operand::Label(String::from_str(p.literal)),
                            program_text_line: index + 1,
                        },
                    )
                } else {
                    let mut m = String::from_str("string literal \"");
                    m.append(p.literal);
                    m.append("\" contains non-ascii characters");
                    Err(m)
                }
            },
            None => {
                let mut m = String::from_str("unrecognised instruction ");
                m.append(instr);
                Err(m)
            },
        }
    }

    /// The record of the instruction with mnemonic `instr` and operand text
    /// `op`, for source line `index`, counted from 0.
    pub fn parse_instruction(&self, instr: &str, op: &str, index: usize) -> (r: Result<Line, String>)
        requires
            index < usize::MAX,
        ensures
            line_text(r) == instruction_of(self@.constants, instr@, op@, index),
            r matches Ok(l) ==> l@.wf(),
    {
        match Narrow::from_mnemonic(instr) {
            Some(n) => {
                if !op.is_empty() {
                    let mut m = String::from_str("instr ");
                    m.append(instr);
                    m.append(" takes no op, found ");
                    m.append(op);
                    return Err(m);
                }
                return Ok(
                    Line {
                        instruction: Instruction::Narrow(n),
                        operand: Operand::Absent,
                        program_text_line: index + 1,
                    },
                );
            },
            None => {},
        }
        if Wide::from_mnemonic(instr).is_some() || same(instr, "org") || same(instr, "dat") {
            self.with_operand(instr, op, index)
        } else {
            let mut m = String::from_str("unrecognised instruction ");
            m.append(instr);
            Err(m)
        }
    }

    /// Where the assembly counter stands after `line`, if the program still
    /// fits the image.
    fn advance(&self, line: &Line) -> (r: Option<usize>)
        ensures
            match r {
                Some(next) => next == advanced(self.counter, line@) && next <= IMAGE_LIMIT,
                None => advanced(self.counter, line@) > IMAGE_LIMIT,
            },
    {
        let size: usize = match line.instruction {
            Instruction::Org => match &line.operand {
                Operand::Addr(a) => {
                    return Some(*a as usize);
                },
                _ => 0,
            },
            Instruction::Narrow(Narrow::LdaConst) => 2,
            Instruction::Narrow(_) => 1,
            Instruction::Wide { .. } => 3,
            Instruction::Dat => match &line.operand {
                Operand::ByteBlock(b) => b.len(),
                _ => 1,
            },
        };
        if size > IMAGE_LIMIT || self.counter > IMAGE_LIMIT - size {
            None
        } else {
            Some(self.counter + size)
        }
    }

    /// Reads one line of source text, number `index` counted from 0: binds
    /// its label, expands it if it invokes a macro, and yields the record
    /// of its instruction if it holds one.
    pub fn read_line(&mut self, s: &str, index: usize) -> (r: Result<Option<Line>, String>)
        requires
            index < usize::MAX,
        ensures
            (final(self)@, outcome_text(r)) == read_line_spec(
                old(self)@,
                s@,
                index,
                MACRO_DEPTH as nat,
            ),
            old(self)@.wf() ==> final(self)@.wf(),
            r matches Ok(Some(l)) ==> l@.wf(),
    {
        self.read_line_nested(s, index, MACRO_DEPTH)
    }

    /// Reads one line of source text, `depth` being how deep macros may
    /// still nest.
    pub fn read_line_nested(&mut self, s: &str, index: usize, depth: usize) -> (r: Result<
        Option<Line>,
        String,
    >)
        requires
            index < usize::MAX,
        ensures
            (final(self)@, outcome_text(r)) == read_line_spec(old(self)@, s@, index, depth as nat),
            old(self)@.wf() ==> final(self)@.wf(),
            r matches Ok(Some(l)) ==> l@.wf(),
        decreases depth, 0nat,
    {
        let t = trim(s);
        let tv = chars_of(t);
        if tv.len() == 0 {
            return Ok(None);
        }
        if tv[0] == '#' {
            let mut m = String::from_str("directive \"");
            m.append(t);
            m.append("\" after the start of instructions");
            return Err(m);
        }
        let cut = find(&tv, ';');
        let code = t.substring_char(0, cut);
        assert(code@ =~= before(t@, ';'));
        if trim(code).is_empty() {
            return Ok(None);
        }
        let cv = chars_of(code);
        let colon = find(&cv, ':');
        let labelled = colon < cv.len();
        let main = if labelled {
            let name = trim(code.substring_char(0, colon));
            assert(code@.subrange(0, colon as int) =~= code@.take(colon as int));
            if self.labels.get(name).is_some() {
                let mut m = String::from_str("label ");
                m.append(name);
                m.append(" is defined twice");
                return Err(m);
            }
            self.labels.insert(String::from_str(name), self.counter);
            assert(code@.subrange(colon + 1, cv.len() as int) =~= code@.skip(colon + 1));
            trim(code.substring_char(colon + 1, cv.len()))
        } else {
            code
        };
        let ghost st1 = self@;
        assert(st1 == if labelled {
            old(self)@.with_label(trimmed(code@.take(colon as int)))
        } else {
            old(self)@
        });
        let mv = chars_of(main);
        if mv.len() == 0 {
            return Ok(None);
        }
        if mv[0] == '!' {
            if depth == 0 {
                return Err(String::from_str("macros nest too deeply"));
            }
            return match self.expand_macro(main, index, depth - 1) {
                Ok(_) => Ok(None),
                Err(e) => Err(e),
            };
        }
        let space = find(&mv, ' ');
        let instr = main.substring_char(0, space);
        let op = trim(main.substring_char(space, mv.len()));
        assert(instr@ =~= main@.take(space as int));
        assert(main@.subrange(space as int, mv.len() as int) =~= main@.skip(space as int));
        match self.parse_instruction(instr, op, index) {
            Err(e) => Err(e),
            Ok(line) => match self.advance(&line) {
                None => Err(String::from_str("program does not fit in 65536 bytes")),
                Some(next) => {
                    self.counter = next;
                    assert(self@ == st1.with_counter(next));
                    Ok(Some(line))
                },
            },
        }
    }

    /// Expands the macro invocation `line`: reads the lines of the macro's
    /// body, with the arguments in place of the parameters, and adds their
    /// records to the lines.
    pub fn expand_macro(&mut self, line: &str, index: usize, depth: usize) -> (r: Result<(), String>)
        requires
            index < usize::MAX,
        ensures
            (final(self)@, message_text(r)) == expand_macro_spec(
                old(self)@,
                line@,
                index,
                depth as nat,
            ),
            old(self)@.wf() ==> final(self)@.wf(),
        decreases depth, 2nat, 0nat,
    {
        let words = split_on(trim(line), ' ');
        let first = words[0].as_str();
        let width = first.unicode_len();
        let name = if width > 0 {
            first.substring_char(1, width)
        } else {
            first
        };
        assert(texts(words@)[0] == first@);
        assert(name@ =~= macro_name(first@));
        let body = match self.macros.get(name) {
            Some(v) => {
                assert(v.deep_view() =~= texts(v@));
                copy_texts(v)
            },
            None => {
                let mut m = String::from_str("macro ");
                m.append(name);
                m.append(" not found");
                return Err(m);
            },
        };
        let ghost goal = expand_macro_spec(old(self)@, line@, index, depth as nat);
        let ghost args = texts(words@).skip(1);
        let mut i: usize = 0;
        while i < body.len()
            invariant
                i <= body.len(),
                index < usize::MAX,
                words.len() >= 1,
                args == texts(words@).skip(1),
                goal == expand_macro_spec(old(self)@, line@, index, depth as nat),
                expand_from(self@, texts(body@), i as nat, args, name@, index, depth as nat)
                    == goal,
                old(self)@.wf() ==> self@.wf(),
            decreases body.len() - i,
        {
            let ghost before = self@;
            let text = substitute(body[i].as_str(), &words);
            assert(texts(body@)[i as int] == body@[i as int]@);
            let outcome = self.read_line_nested(text.as_str(), index, depth);
            assert(read_line_spec(before, substituted(texts(body@)[i as int], args), index, depth as nat)
                == (self@, outcome_text(outcome)));
            match outcome {
                Ok(Some(record)) => {
                    let ghost lines = self.lines@;
                    let ghost state = self@;
                    self.lines.push(record);
                    assert(line_views(self.lines@) =~= line_views(lines).push(record@));
                    assert(self@ == state.with_line(record@));
                },
                Ok(None) => {},
                Err(e) => {
                    let mut m = String::from_str("error in macro ");
                    m.append(name);
                    m.append(": ");
                    m.append(e.as_str());
                    assert(m@ == "error in macro "@ + name@ + ": "@ + e@);
                    assert(expand_from(
                        before,
                        texts(body@),
                        i as nat,
                        args,
                        name@,
                        index,
                        depth as nat,
                    ) == (self@, Err::<(), Seq<char>>(m@)));
                    return Err(m);
                },
            }
            i += 1;
        }
        Ok(())
    }
}

} // verus!
