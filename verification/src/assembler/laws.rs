//! What the parser makes of the plain lines of a program: a mnemonic alone,
//! and a wide mnemonic with a numeric operand in each addressing mode.

use vstd::prelude::*;
use vstd::string::*;
use crate::numeral::digit_value;
use crate::text::{
    is_space, lemma_leading, lemma_position2, lemma_trailing, position, split, trimmed,
};
use crate::utils::literal_value;
use super::assembler::{
    assembled, assembled_from, opens_with_declarations, read_from, AsmState, IMAGE_LIMIT,
    MACRO_DEPTH,
};
use super::decode::{decoded, directive_free, instructions, lemma_round_trip};
use super::link::{encoded, link_from, overlay};
use super::isa::{lemma_decode_encode, Instruction, Narrow, Wide};
use super::line::{LineView, OperandView};
use super::operand::{marks_immediate, marks_indexed, operand_syntax, unmarked, OperandSyntax};
use super::parse::{
    advanced, instruction_of, operand_line, read_line_spec, record, takes_operand, wide_line,
};

verus! {

/// Whether `c` is a lower-case letter of the alphabet.
pub open spec fn is_letter(c: char) -> bool {
    0x61 <= c as u32 <= 0x7A
}

/// Whether `s` is made of letters and digits only, and of one at least.
pub open spec fn is_plain(s: Seq<char>) -> bool {
    s.len() > 0 && forall|i: int| 0 <= i < s.len() ==> digit_value(#[trigger] s[i]) < 36
}

/// Every mnemonic is three lower-case letters; none names both a narrow
/// operation and an instruction that takes an operand; and `org` and `dat`
/// name no wide operation.
pub proof fn lemma_mnemonics(m: Seq<char>)
    requires
        Narrow::named(m) is Some || takes_operand(m),
    ensures
        m.len() == 3,
        is_letter(m[0]) && is_letter(m[1]) && is_letter(m[2]),
        !(Narrow::named(m) is Some && takes_operand(m)),
        Wide::named(m) is Some ==> m != "org"@ && m != "dat"@,
        Narrow::named(m) != Some(Narrow::LdaConst),
{
    reveal_strlit("nop");
    assert("nop"@[0] == 'n' && "nop"@[1] == 'o' && "nop"@[2] == 'p');
    reveal_strlit("hlt");
    assert("hlt"@[0] == 'h' && "hlt"@[1] == 'l' && "hlt"@[2] == 't');
    reveal_strlit("swp");
    assert("swp"@[0] == 's' && "swp"@[1] == 'w' && "swp"@[2] == 'p');
    reveal_strlit("tab");
    assert("tab"@[0] == 't' && "tab"@[1] == 'a' && "tab"@[2] == 'b');
    reveal_strlit("tax");
    assert("tax"@[0] == 't' && "tax"@[1] == 'a' && "tax"@[2] == 'x');
    reveal_strlit("txa");
    assert("txa"@[0] == 't' && "txa"@[1] == 'x' && "txa"@[2] == 'a');
    reveal_strlit("inc");
    assert("inc"@[0] == 'i' && "inc"@[1] == 'n' && "inc"@[2] == 'c');
    reveal_strlit("dec");
    assert("dec"@[0] == 'd' && "dec"@[1] == 'e' && "dec"@[2] == 'c');
    reveal_strlit("add");
    assert("add"@[0] == 'a' && "add"@[1] == 'd' && "add"@[2] == 'd');
    reveal_strlit("adc");
    assert("adc"@[0] == 'a' && "adc"@[1] == 'd' && "adc"@[2] == 'c');
    reveal_strlit("sub");
    assert("sub"@[0] == 's' && "sub"@[1] == 'u' && "sub"@[2] == 'b');
    reveal_strlit("sbc");
    assert("sbc"@[0] == 's' && "sbc"@[1] == 'b' && "sbc"@[2] == 'c');
    reveal_strlit("lsr");
    assert("lsr"@[0] == 'l' && "lsr"@[1] == 's' && "lsr"@[2] == 'r');
    reveal_strlit("lsl");
    assert("lsl"@[0] == 'l' && "lsl"@[1] == 's' && "lsl"@[2] == 'l');
    reveal_strlit("clc");
    assert("clc"@[0] == 'c' && "clc"@[1] == 'l' && "clc"@[2] == 'c');
    reveal_strlit("sec");
    assert("sec"@[0] == 's' && "sec"@[1] == 'e' && "sec"@[2] == 'c');
    reveal_strlit("put");
    assert("put"@[0] == 'p' && "put"@[1] == 'u' && "put"@[2] == 't');
    reveal_strlit("psa");
    assert("psa"@[0] == 'p' && "psa"@[1] == 's' && "psa"@[2] == 'a');
    reveal_strlit("ppa");
    assert("ppa"@[0] == 'p' && "ppa"@[1] == 'p' && "ppa"@[2] == 'a');
    reveal_strlit("pss");
    assert("pss"@[0] == 'p' && "pss"@[1] == 's' && "pss"@[2] == 's');
    reveal_strlit("pps");
    assert("pps"@[0] == 'p' && "pps"@[1] == 'p' && "pps"@[2] == 's');
    reveal_strlit("ssp");
    assert("ssp"@[0] == 's' && "ssp"@[1] == 's' && "ssp"@[2] == 'p');
    reveal_strlit("gsp");
    assert("gsp"@[0] == 'g' && "gsp"@[1] == 's' && "gsp"@[2] == 'p');
    reveal_strlit("brk");
    assert("brk"@[0] == 'b' && "brk"@[1] == 'r' && "brk"@[2] == 'k');
    reveal_strlit("rts");
    assert("rts"@[0] == 'r' && "rts"@[1] == 't' && "rts"@[2] == 's');
    reveal_strlit("get");
    assert("get"@[0] == 'g' && "get"@[1] == 'e' && "get"@[2] == 't');
    reveal_strlit("not");
    assert("not"@[0] == 'n' && "not"@[1] == 'o' && "not"@[2] == 't');
    reveal_strlit("and");
    assert("and"@[0] == 'a' && "and"@[1] == 'n' && "and"@[2] == 'd');
    reveal_strlit("ior");
    assert("ior"@[0] == 'i' && "ior"@[1] == 'o' && "ior"@[2] == 'r');
    reveal_strlit("xor");
    assert("xor"@[0] == 'x' && "xor"@[1] == 'o' && "xor"@[2] == 'r');
    reveal_strlit("gbf");
    assert("gbf"@[0] == 'g' && "gbf"@[1] == 'b' && "gbf"@[2] == 'f');
    reveal_strlit("lda");
    assert("lda"@[0] == 'l' && "lda"@[1] == 'd' && "lda"@[2] == 'a');
    reveal_strlit("sta");
    assert("sta"@[0] == 's' && "sta"@[1] == 't' && "sta"@[2] == 'a');
    reveal_strlit("jmp");
    assert("jmp"@[0] == 'j' && "jmp"@[1] == 'm' && "jmp"@[2] == 'p');
    reveal_strlit("jsr");
    assert("jsr"@[0] == 'j' && "jsr"@[1] == 's' && "jsr"@[2] == 'r');
    reveal_strlit("jez");
    assert("jez"@[0] == 'j' && "jez"@[1] == 'e' && "jez"@[2] == 'z');
    reveal_strlit("jgt");
    assert("jgt"@[0] == 'j' && "jgt"@[1] == 'g' && "jgt"@[2] == 't');
    reveal_strlit("org");
    assert("org"@[0] == 'o' && "org"@[1] == 'r' && "org"@[2] == 'g');
    reveal_strlit("dat");
    assert("dat"@[0] == 'd' && "dat"@[1] == 'a' && "dat"@[2] == 't');
}

/// A text that neither starts nor ends with white space is its own
/// trimmed form.
pub proof fn lemma_trimmed_same(s: Seq<char>)
    requires
        s.len() > 0,
        !is_space(s[0]),
        !is_space(s.last()),
    ensures
        trimmed(s) == s,
{
    lemma_leading(s, 0);
    assert(s.skip(0) =~= s);
    lemma_trailing(s, 0);
    assert(s.take(s.len() as int) =~= s);
}

/// A character that does not occur is found at the end.
pub proof fn lemma_absent(s: Seq<char>, c: char)
    requires
        forall|j: int| 0 <= j < s.len() ==> #[trigger] s[j] != c,
    ensures
        position(s, c) == s.len(),
{
    lemma_position2(s, c, c, s.len() as int);
}

/// A word, a space and an operand split at the space into the word and the
/// operand.
pub proof fn lemma_word_and_operand(word: Seq<char>, operand: Seq<char>)
    requires
        forall|j: int| 0 <= j < word.len() ==> #[trigger] word[j] != ' ',
        operand.len() > 0,
        !is_space(operand[0]),
        !is_space(operand.last()),
    ensures
        ({
            let s = word + seq![' '] + operand;
            &&& position(s, ' ') == word.len()
            &&& s.take(word.len() as int) == word
            &&& trimmed(s.skip(word.len() as int)) == operand
        }),
{
    let s = word + seq![' '] + operand;
    let n = word.len() as int;
    assert forall|j: int| 0 <= j < n implies #[trigger] s[j] != ' ' && s[j] != ' ' by {
        assert(s[j] == word[j]);
    }
    assert(s[n] == ' ');
    lemma_position2(s, ' ', ' ', n);
    assert(s.take(n) =~= word);
    let rest = s.skip(n);
    assert(rest =~= seq![' '] + operand);
    assert(rest[0] == ' ');
    assert(rest[1] == operand[0]);
    lemma_leading(rest, 1);
    let tail = rest.skip(1);
    assert(tail =~= operand);
    lemma_trailing(operand, 0);
    assert(operand.take(operand.len() as int) =~= operand);
}

/// What reading a line gives that is neither blank nor a directive, a
/// comment, a label or a macro invocation: the record of its instruction,
/// and the counter moved on.
pub open spec fn plain_outcome(st: AsmState, instr: Seq<char>, op: Seq<char>, index: usize) -> (
    AsmState,
    Result<Option<LineView>, Seq<char>>,
) {
    match instruction_of(st.constants, instr, op, index) {
        Err(e) => (st, Err(e)),
        Ok(line) => if advanced(st.counter, line) > IMAGE_LIMIT {
            (st, Err("program does not fit in 65536 bytes"@))
        } else {
            (st.with_counter(advanced(st.counter, line) as usize), Ok(Some(line)))
        },
    }
}

/// A line without white space at its ends, without `;` and `:`, that
/// starts with neither `#` nor `!`, is read as an instruction: the
/// mnemonic up to the first space, and the operand after it.
pub proof fn lemma_plain_line(st: AsmState, s: Seq<char>, index: usize, depth: nat)
    requires
        s.len() > 0,
        !is_space(s[0]),
        !is_space(s.last()),
        s[0] != '#',
        s[0] != '!',
        forall|j: int| 0 <= j < s.len() ==> #[trigger] s[j] != ';' && s[j] != ':',
    ensures
        read_line_spec(st, s, index, depth) == plain_outcome(
            st,
            s.take(position(s, ' ')),
            trimmed(s.skip(position(s, ' '))),
            index,
        ),
{
    lemma_trimmed_same(s);
    lemma_absent(s, ';');
    lemma_absent(s, ':');
    assert(s.take(s.len() as int) =~= s);
}

/// A narrow mnemonic on a line of its own gives the record of its
/// operation, without operand, and moves the counter by one. The opcode of
/// the record has bit 7 clear and decodes back to the operation.
pub proof fn lemma_narrow_line(st: AsmState, m: Seq<char>, index: usize, depth: nat)
    requires
        Narrow::named(m) is Some,
        st.counter < IMAGE_LIMIT,
    ensures
        ({
            let i = Instruction::Narrow(Narrow::named(m)->Some_0);
            &&& read_line_spec(st, m, index, depth) == (
                st.with_counter((st.counter + 1) as usize),
                Ok::<Option<LineView>, Seq<char>>(Some(record(i, OperandView::Absent, index))),
            )
            &&& i.code() < 128
            &&& Instruction::of_code(i.code()) == Some(i)
        }),
{
    lemma_mnemonics(m);
    assert(!is_space(m[0]) && !is_space(m[2]));
    assert forall|j: int| 0 <= j < m.len() implies #[trigger] m[j] != ';' && m[j] != ':' by {
        assert(is_letter(m[j]));
    }
    lemma_plain_line(st, m, index, depth);
    assert forall|j: int| 0 <= j < m.len() implies #[trigger] m[j] != ' ' by {
        assert(is_letter(m[j]));
    }
    lemma_absent(m, ' ');
    assert(m.take(m.len() as int) =~= m);
    assert(m.skip(m.len() as int) =~= Seq::<char>::empty());
    assert(trimmed(Seq::<char>::empty()) =~= Seq::<char>::empty());
    lemma_decode_encode(Instruction::Narrow(Narrow::named(m)->Some_0));
}

/// A numeric operand in one of the four addressing modes: the number
/// alone, in round brackets where `indirect`, and with `,x` behind it
/// where `indexed`.
pub open spec fn address_operand(number: Seq<char>, indexed: bool, indirect: bool) -> Seq<char> {
    let core = if indirect {
        seq!['('] + number + seq![')']
    } else {
        number
    };
    if indexed {
        core + seq![',', 'x']
    } else {
        core
    }
}

/// How an address operand reads: the number inside the marks, with the
/// marks told apart.
pub proof fn lemma_address_operand(number: Seq<char>, indexed: bool, indirect: bool, value: u16)
    requires
        is_plain(number),
        literal_value::<u16>(number) == Ok::<u16, Seq<char>>(value),
    ensures
        operand_syntax(address_operand(number, indexed, indirect)) == Ok::<
            OperandSyntax,
            Seq<char>,
        >(
            OperandSyntax {
                literal: number,
                value,
                is_label: false,
                is_offset: indexed,
                is_indirect: indirect,
                is_string: false,
                is_literal: false,
            },
        ),
        address_operand(number, indexed, indirect).len() > 0,
        !is_space(address_operand(number, indexed, indirect)[0]),
        !is_space(address_operand(number, indexed, indirect).last()),
        address_operand(number, indexed, indirect)[0] != '#',
        forall|j: int|
            0 <= j < address_operand(number, indexed, indirect).len() ==> {
                let c = #[trigger] address_operand(number, indexed, indirect)[j];
                c != ';' && c != ':' && !is_space(c)
            },
{
    let op = address_operand(number, indexed, indirect);
    let core = if indirect {
        seq!['('] + number + seq![')']
    } else {
        number
    };
    assert(digit_value(number[0]) < 36);
    assert(digit_value(number.last()) < 36);
    assert(digit_value(number[number.len() - 1]) < 36);
    assert(!marks_immediate(op));
    assert(!marks_indexed(core)) by {
        if !indirect && core.len() >= 2 {
            assert(digit_value(number[number.len() - 2]) < 36);
        }
    }
    assert(marks_indexed(op) == indexed);
    assert(unmarked(op) =~= core);
    if indirect {
        assert(core.subrange(1, core.len() - 1) =~= number);
    }
    assert forall|j: int| 0 <= j < op.len() implies {
        let c = #[trigger] op[j];
        c != ';' && c != ':' && !is_space(c)
    } by {
        let k = if indirect {
            j - 1
        } else {
            j
        };
        if 0 <= k < number.len() {
            assert(op[j] == number[k]);
            assert(digit_value(number[k]) < 36);
        }
    }
}

/// A wide mnemonic and a numeric operand in any of the four addressing
/// modes give the record of the operation with the address, and move the
/// counter by three. The opcode of the record is 128, plus 16 where the
/// operand is indirect, plus 8 where it is indexed, plus the selector; it
/// decodes back to the operation and its addressing mode.
pub proof fn lemma_wide_line(
    st: AsmState,
    m: Seq<char>,
    number: Seq<char>,
    indexed: bool,
    indirect: bool,
    value: u16,
    index: usize,
    depth: nat,
)
    requires
        Wide::named(m) is Some,
        is_plain(number),
        literal_value::<u16>(number) == Ok::<u16, Seq<char>>(value),
        st.counter + 3 <= IMAGE_LIMIT,
    ensures
        ({
            let i = Instruction::Wide { op: Wide::named(m)->Some_0, indexed, indirect };
            let s = m + seq![' '] + address_operand(number, indexed, indirect);
            &&& read_line_spec(st, s, index, depth) == (
                st.with_counter((st.counter + 3) as usize),
                Ok::<Option<LineView>, Seq<char>>(Some(record(i, OperandView::Addr(value), index))),
            )
            &&& i.code() == 128 + (if indirect {
                16int
            } else {
                0
            }) + (if indexed {
                8int
            } else {
                0
            }) + Wide::named(m)->Some_0.selector()
            &&& Instruction::of_code(i.code()) == Some(i)
        }),
{
    let op = address_operand(number, indexed, indirect);
    let s = m + seq![' '] + op;
    let w = Wide::named(m)->Some_0;
    let i = Instruction::Wide { op: w, indexed, indirect };
    lemma_mnemonics(m);
    lemma_address_operand(number, indexed, indirect, value);
    assert forall|j: int| 0 <= j < m.len() implies #[trigger] m[j] != ' ' by {
        assert(is_letter(m[j]));
    }
    lemma_word_and_operand(m, op);
    assert(s[0] == m[0]);
    assert(s.last() == op.last());
    assert forall|j: int| 0 <= j < s.len() implies #[trigger] s[j] != ';' && s[j] != ':' by {
        if j < 3 {
            assert(s[j] == m[j]);
            assert(is_letter(m[j]));
        } else if j > 3 {
            assert(s[j] == op[j - 4]);
        }
    }
    lemma_plain_line(st, s, index, depth);
    let p = operand_syntax(op)->Ok_0;
    assert(operand_line(st.constants, m, op, index) == wide_line(w, p, index));
    assert(instruction_of(st.constants, m, op, index) == Ok::<LineView, Seq<char>>(
        record(i, OperandView::Addr(value), index),
    ));
    lemma_decode_encode(i);
}

/// `lda` with an immediate number that fits a byte gives the record of
/// the immediate load with that byte, and moves the counter by two. Its
/// opcode is 25.
pub proof fn lemma_immediate_line(
    st: AsmState,
    number: Seq<char>,
    value: u16,
    index: usize,
    depth: nat,
)
    requires
        is_plain(number),
        literal_value::<u16>(number) == Ok::<u16, Seq<char>>(value),
        value <= 255,
        st.counter + 2 <= IMAGE_LIMIT,
    ensures
        ({
            let i = Instruction::Narrow(Narrow::LdaConst);
            let s = "lda"@ + seq![' ', '#'] + number;
            &&& read_line_spec(st, s, index, depth) == (
                st.with_counter((st.counter + 2) as usize),
                Ok::<Option<LineView>, Seq<char>>(
                    Some(record(i, OperandView::Byte(value as u8), index)),
                ),
            )
            &&& i.code() == 25
        }),
{
    let m = "lda"@;
    let op = seq!['#'] + number;
    let s = m + seq![' ', '#'] + number;
    assert(s =~= m + seq![' '] + op);
    lemma_mnemonics(m);
    assert(digit_value(number[0]) < 36);
    assert(digit_value(number.last()) < 36);
    assert(op.last() == number.last());
    assert forall|j: int| 0 <= j < m.len() implies #[trigger] m[j] != ' ' by {
        assert(is_letter(m[j]));
    }
    lemma_word_and_operand(m, op);
    assert(s[0] == m[0]);
    assert(s.last() == op.last());
    assert forall|j: int| 0 <= j < s.len() implies #[trigger] s[j] != ';' && s[j] != ':' by {
        if j < 3 {
            assert(s[j] == m[j]);
            assert(is_letter(m[j]));
        } else if j > 4 {
            assert(s[j] == number[j - 5]);
            assert(digit_value(number[j - 5]) < 36);
        }
    }
    lemma_plain_line(st, s, index, depth);
    assert(marks_immediate(op));
    assert(!marks_indexed(op)) by {
        if op.len() >= 2 {
            assert(op[op.len() - 1] == number[number.len() - 1]);
            if number.len() >= 2 {
                assert(op[op.len() - 2] == number[number.len() - 2]);
                assert(digit_value(number[number.len() - 2]) < 36);
            }
        }
    }
    assert(unmarked(op) =~= number);
    let p = operand_syntax(op)->Ok_0;
    assert(p.literal == number && p.value == value && !p.is_label && p.is_literal);
    assert(instruction_of(st.constants, m, op, index) == Ok::<LineView, Seq<char>>(
        record(Instruction::Narrow(Narrow::LdaConst), OperandView::Byte(value as u8), index),
    ));
}

/// The text of a program: its lines with a line feed between each two.
pub open spec fn joined(lines: Seq<Seq<char>>) -> Seq<char>
    decreases lines.len(),
{
    if lines.len() == 0 {
        Seq::empty()
    } else if lines.len() == 1 {
        lines[0]
    } else {
        joined(lines.drop_last()) + seq!['\n'] + lines.last()
    }
}

/// The record of the narrow mnemonic `m` on line `index`, counted from 0.
pub open spec fn narrow_record(m: Seq<char>, index: int) -> LineView {
    record(Instruction::Narrow(Narrow::named(m)->Some_0), OperandView::Absent, index as usize)
}

/// The records of the narrow mnemonics `words`, the first on line `from`.
pub open spec fn narrow_records(words: Seq<Seq<char>>, from: int) -> Seq<LineView> {
    Seq::new(words.len(), |j: int| narrow_record(words[j], from + j))
}

/// The opcodes of the narrow mnemonics `words`.
pub open spec fn narrow_codes(words: Seq<Seq<char>>) -> Seq<u8> {
    Seq::new(words.len(), |j: int| Narrow::named(words[j])->Some_0.code())
}

/// Whether every one of `words` is a narrow mnemonic.
pub open spec fn all_narrow(words: Seq<Seq<char>>) -> bool {
    forall|i: int| 0 <= i < words.len() ==> Narrow::named(#[trigger] words[i]) is Some
}

/// A text without the separator is one piece.
pub proof fn lemma_split_word(w: Seq<char>, c: char)
    requires
        forall|j: int| 0 <= j < w.len() ==> #[trigger] w[j] != c,
    ensures
        split(w, c) == seq![w],
    decreases w.len(),
{
    if w.len() == 0 {
        assert(w =~= Seq::<char>::empty());
    } else {
        let front = w.drop_last();
        lemma_split_word(front, c);
        assert(seq![front].drop_last().push(seq![front].last().push(w.last())) =~= seq![w]) by {
            assert(front.push(w.last()) =~= w);
        }
    }
}

/// A separator and a text without it add one piece.
pub proof fn lemma_split_append(a: Seq<char>, w: Seq<char>, c: char)
    requires
        forall|j: int| 0 <= j < w.len() ==> #[trigger] w[j] != c,
    ensures
        split(a + seq![c] + w, c) == split(a, c).push(w),
    decreases w.len(),
{
    let s = a + seq![c] + w;
    if w.len() == 0 {
        assert(s.drop_last() =~= a);
        assert(w =~= Seq::<char>::empty());
    } else {
        let front = w.drop_last();
        lemma_split_append(a, front, c);
        assert(s.drop_last() =~= a + seq![c] + front);
        assert(s.last() == w.last());
        let pieces = split(a, c).push(front);
        assert(pieces.drop_last() =~= split(a, c));
        assert(front.push(w.last()) =~= w);
    }
}

/// Lines without a line feed, joined and split again, are the lines.
pub proof fn lemma_split_joined(lines: Seq<Seq<char>>)
    requires
        lines.len() >= 1,
        forall|i: int, j: int|
            0 <= i < lines.len() && 0 <= j < lines[i].len() ==> #[trigger] lines[i][j] != '\n',
    ensures
        split(joined(lines), '\n') == lines,
    decreases lines.len(),
{
    if lines.len() == 1 {
        assert forall|j: int| 0 <= j < lines[0].len() implies #[trigger] lines[0][j] != '\n' by {}
        lemma_split_word(lines[0], '\n');
        assert(seq![lines[0]] =~= lines);
    } else {
        let front = lines.drop_last();
        assert forall|i: int, j: int|
            0 <= i < front.len() && 0 <= j < front[i].len() implies #[trigger] front[i][j]
            != '\n' by {
            assert(front[i] == lines[i]);
        }
        lemma_split_joined(front);
        let last = lines.last();
        assert forall|j: int| 0 <= j < last.len() implies #[trigger] last[j] != '\n' by {
            assert(last == lines[lines.len() - 1]);
        }
        lemma_split_append(joined(front), last, '\n');
        assert(front.push(last) =~= lines);
    }
}

/// Reading lines that each hold a narrow mnemonic adds the record of each
/// and moves the counter by one for each.
pub proof fn lemma_read_narrow(st: AsmState, words: Seq<Seq<char>>, i: nat)
    requires
        all_narrow(words),
        i <= words.len() <= usize::MAX,
        st.counter + (words.len() - i) <= IMAGE_LIMIT,
    ensures
        read_from(st, words, i) == (
            AsmState {
                lines: st.lines + narrow_records(words.skip(i as int), i as int),
                counter: (st.counter + (words.len() - i)) as usize,
                ..st
            },
            Ok::<(), Seq<char>>(()),
        ),
    decreases words.len() - i,
{
    if i >= words.len() {
        assert(st.lines + narrow_records(words.skip(i as int), i as int) =~= st.lines);
    } else {
        let m = words[i as int];
        lemma_narrow_line(st, m, i as usize, MACRO_DEPTH as nat);
        let line = narrow_record(m, i as int);
        let moved = st.with_counter((st.counter + 1) as usize);
        let next = AsmState { lines: moved.lines.push(line), ..moved };
        lemma_read_narrow(next, words, i + 1);
        let rest = words.skip(i as int);
        let after = words.skip(i as int + 1);
        assert(next.lines + narrow_records(after, i as int + 1) =~= st.lines + narrow_records(
            rest,
            i as int,
        )) by {
            assert(rest.len() == after.len() + 1);
            assert forall|j: int| 0 <= j < after.len() implies after[j] == rest[j + 1] by {}
            assert(rest[0] == m);
        }
    }
}

/// Linking the records of narrow mnemonics appends the opcode of each.
pub proof fn lemma_link_narrow(
    words: Seq<Seq<char>>,
    from: int,
    i: nat,
    labels: Map<Seq<char>, usize>,
    image: Seq<u8>,
)
    requires
        all_narrow(words),
        i <= words.len(),
        image.len() + (words.len() - i) <= IMAGE_LIMIT,
    ensures
        link_from(narrow_records(words, from), i, labels, image, image.len() as usize).1 == Ok::<
            Seq<u8>,
            Seq<char>,
        >(image + narrow_codes(words.skip(i as int))),
    decreases words.len() - i,
{
    let lines = narrow_records(words, from);
    if i >= words.len() {
        assert(image + narrow_codes(words.skip(i as int)) =~= image);
    } else {
        let m = words[i as int];
        lemma_mnemonics(m);
        let line = lines[i as int];
        let code = Narrow::named(m)->Some_0.code();
        assert(line == narrow_record(m, from + i));
        assert(encoded(labels, line) == Ok::<Seq<u8>, Seq<char>>(seq![code]));
        let next = overlay(image, image.len() as int, seq![code]);
        assert(next =~= image.push(code));
        lemma_link_narrow(words, from, i + 1, labels, next);
        let rest = words.skip(i as int);
        let after = words.skip(i as int + 1);
        assert(next + narrow_codes(after) =~= image + narrow_codes(rest)) by {
            assert forall|j: int| 0 <= j < after.len() implies after[j] == rest[j + 1] by {}
            assert(rest[0] == m);
        }
    }
}

/// A program of narrow mnemonics, one on each line, assembles to their
/// opcodes, one byte for each line; and the image decodes back, byte by
/// byte, to the operations that the lines name.
pub proof fn lemma_narrow_program(words: Seq<Seq<char>>)
    requires
        all_narrow(words),
        1 <= words.len() <= IMAGE_LIMIT,
    ensures
        assembled(joined(words)) == Ok::<Seq<u8>, Seq<char>>(narrow_codes(words)),
        narrow_codes(words).len() == words.len(),
        forall|i: int| 0 <= i < words.len() ==> (#[trigger] narrow_codes(words)[i]) < 128,
        decoded(narrow_codes(words), 0, words.len()) == Seq::new(
            words.len(),
            |i: int| Instruction::Narrow(Narrow::named(words[i])->Some_0),
        ),
{
    assert forall|i: int, j: int|
        0 <= i < words.len() && 0 <= j < words[i].len() implies #[trigger] words[i][j] != '\n' by {
        lemma_mnemonics(words[i]);
        assert(is_letter(words[i][j]));
    }
    lemma_split_joined(words);
    let first = words[0];
    lemma_mnemonics(first);
    assert(!is_space(first[0]) && !is_space(first[2]));
    lemma_trimmed_same(first);
    assert(!opens_with_declarations(words));
    let empty = AsmState::empty();
    lemma_read_narrow(empty, words, 0);
    assert(words.skip(0) =~= words);
    let records = narrow_records(words, 0);
    assert(empty.lines + records =~= records);
    lemma_link_narrow(words, 0, 0, empty.labels, Seq::empty());
    assert(Seq::<u8>::empty() + narrow_codes(words) =~= narrow_codes(words));
    assert(assembled_from(empty, words, 0) == Ok::<Seq<u8>, Seq<char>>(narrow_codes(words)));
    assert forall|i: int| 0 <= i < records.len() implies (#[trigger] records[i]).wf()
        && records[i].instruction is Narrow by {
        lemma_mnemonics(words[i]);
    }
    assert(directive_free(records));
    lemma_round_trip(records, empty.labels);
    assert(instructions(records) =~= Seq::new(
        words.len(),
        |i: int| Instruction::Narrow(Narrow::named(words[i])->Some_0),
    ));
}

} // verus!
