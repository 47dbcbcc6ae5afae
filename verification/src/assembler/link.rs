//! Layout and linking: from line records to the bytes of the image.

use vstd::prelude::*;
use vstd::string::*;
use crate::text::{chars_of, decimal, decimal_text, find, find_either, position, position2, without};
use crate::utils::{
    literal_value, message_text, parse_int_literal, set_vec_value_at_index, strip_whitespace,
    u16_to_bytes,
};
use super::assembler::{Assembler, IMAGE_LIMIT};
use super::isa::Instruction;
use super::line::{Line, LineView, Operand, OperandView};
use super::parse::bytes_text;

verus! {

/// The image `image` with `bytes` written from index `at` on. A write past
/// the end extends the image; what lies between the old end and the first
/// byte written is zero.
pub open spec fn overlay(image: Seq<u8>, at: int, bytes: Seq<u8>) -> Seq<u8> {
    let len = if bytes.len() > 0 && at + bytes.len() > image.len() {
        (at + bytes.len()) as nat
    } else {
        image.len()
    };
    Seq::new(
        len,
        |i: int|
            if at <= i < at + bytes.len() {
                bytes[i - at]
            } else if i < image.len() {
                image[i]
            } else {
                0u8
            },
    )
}

/// A label operand without its spaces.
pub open spec fn label_text(l: Seq<char>) -> Seq<char> {
    without(l, ' ')
}

/// The name in a label operand: what stands before the first `+` or `-`.
pub open spec fn label_name(l: Seq<char>) -> Seq<char> {
    label_text(l).take(position2(label_text(l), '+', '-'))
}

/// The literal in a label operand: what stands between the first `+` or
/// `-` and the next one, or the end.
pub open spec fn label_literal(l: Seq<char>) -> Seq<char> {
    let rest = label_text(l).skip(position2(label_text(l), '+', '-') + 1);
    rest.take(position2(rest, '+', '-'))
}

/// The offset that a label operand asks for: 0 where it holds neither `+`
/// nor `-`; else the value of its literal, taken off where the operand
/// holds a `-` and added where it does not.
pub open spec fn label_offset(l: Seq<char>) -> Result<int, Seq<char>> {
    let text = label_text(l);
    if position2(text, '+', '-') >= text.len() {
        Ok(0)
    } else {
        match literal_value::<i32>(label_literal(l)) {
            Ok(v) => if position(text, '-') < text.len() {
                Ok(-v)
            } else {
                Ok(v as int)
            },
            Err(e) => Err(e),
        }
    }
}

/// The address that a label operand stands for: that of the label plus the
/// offset, modulo 65536.
pub open spec fn resolved(labels: Map<Seq<char>, usize>, l: Seq<char>) -> Result<u16, Seq<char>> {
    match label_offset(l) {
        Err(e) => Err(e),
        Ok(offset) => if labels.dom().contains(label_name(l)) {
            Ok(((labels[label_name(l)] + offset) % 65536) as u16)
        } else {
            Err("unrecognised label "@ + label_name(l))
        },
    }
}

/// An opcode followed by a 16-bit address, high byte first.
pub open spec fn with_address(code: u8, address: u16) -> Seq<u8> {
    seq![code, (address / 256) as u8, (address % 256) as u8]
}

/// The bytes that a line stands for: the payload of `dat`; else the opcode
/// and, after it, the operand: one byte, or an address in two bytes, high
/// byte first.
pub open spec fn encoded(labels: Map<Seq<char>, usize>, line: LineView) -> Result<
    Seq<u8>,
    Seq<char>,
> {
    let code = line.instruction.code();
    if line.instruction == Instruction::Dat {
        match line.operand {
            OperandView::Byte(b) => Ok(seq![b]),
            OperandView::ByteBlock(b) => Ok(b),
            _ => Ok(Seq::empty()),
        }
    } else {
        match line.operand {
            OperandView::Absent => Ok(seq![code]),
            OperandView::Byte(b) => Ok(seq![code, b]),
            OperandView::Addr(a) => Ok(with_address(code, a)),
            OperandView::Label(l) => match resolved(labels, l) {
                Ok(a) => Ok(with_address(code, a)),
                Err(e) => Err(e),
            },
            OperandView::ByteBlock(_) => Ok(seq![code]),
        }
    }
}

/// The address that an `org` line moves the counter to.
pub open spec fn origin(line: LineView) -> usize {
    match line.operand {
        OperandView::Addr(a) => a as usize,
        _ => 0,
    }
}

/// Where linking the lines from the `i`-th on ends, with `image` written
/// so far and the assembly counter at `counter`: the counter, and the image
/// or the message of the first line that fails. An `org` line moves the
/// counter; every other line is encoded and written at the counter, which
/// moves on by its size.
pub open spec fn link_from(
    lines: Seq<LineView>,
    i: nat,
    labels: Map<Seq<char>, usize>,
    image: Seq<u8>,
    counter: usize,
) -> (usize, Result<Seq<u8>, Seq<char>>)
    decreases lines.len() - i,
{
    if i >= lines.len() {
        (counter, Ok(image))
    } else {
        let line = lines[i as int];
        if line.instruction == Instruction::Org {
            link_from(lines, i + 1, labels, image, origin(line))
        } else {
            match encoded(labels, line) {
                Err(e) => (
                    counter,
                    Err("line "@ + decimal(line.program_text_line as nat) + ": "@ + e),
                ),
                Ok(bytes) => if counter + bytes.len() > IMAGE_LIMIT {
                    (
                        counter,
                        Err(
                            "line "@ + decimal(line.program_text_line as nat)
                                + ": image does not fit in 65536 bytes"@,
                        ),
                    )
                } else {
                    link_from(
                        lines,
                        i + 1,
                        labels,
                        overlay(image, counter as int, bytes),
                        (counter + bytes.len()) as usize,
                    )
                },
            }
        }
    }
}

/// The image that a sequence of lines links to.
pub open spec fn linked(lines: Seq<LineView>, labels: Map<Seq<char>, usize>) -> (
    usize,
    Result<Seq<u8>, Seq<char>>,
) {
    link_from(lines, 0, labels, Seq::empty(), 0)
}

/// The outcome of linking with mathematical images in place of the values.
pub open spec fn image_text(r: Result<Box<[u8]>, String>) -> Result<Seq<u8>, Seq<char>> {
    match r {
        Ok(b) => Ok(b@),
        Err(m) => Err(m@),
    }
}

/// Calls `Vec::into_boxed_slice`. Trusted: the boxed slice holds the
/// elements of the vector, in their order.
#[verifier::external_body]
pub(crate) fn boxed(v: Vec<u8>) -> (b: Box<[u8]>)
    ensures
        b@ == v@,
{
    v.into_boxed_slice()
}

/// Writes `bytes` into `image` from index `at` on, growing the image with
/// zeros where the write starts past its end.
pub fn place(image: &mut Vec<u8>, at: usize, bytes: &Vec<u8>)
    requires
        at + bytes.len() < usize::MAX,
    ensures
        final(image)@ == overlay(old(image)@, at as int, bytes@),
{
    let mut k: usize = 0;
    assert(image@ =~= overlay(old(image)@, at as int, bytes@.take(0)));
    while k < bytes.len()
        invariant
            k <= bytes.len(),
            at + bytes.len() < usize::MAX,
            image@ == overlay(old(image)@, at as int, bytes@.take(k as int)),
        decreases bytes.len() - k,
    {
        set_vec_value_at_index(image, bytes[k], at + k);
        assert(image@ =~= overlay(old(image)@, at as int, bytes@.take(k + 1)));
        k += 1;
    }
    assert(bytes@.take(k as int) =~= bytes@);
}

/// The address that lies `offset` after the address `base`, or before it
/// where `back` is set, modulo 65536.
pub fn displaced(base: usize, offset: i32, back: bool) -> (r: u16)
    ensures
        r == (base + if back {
            -offset
        } else {
            offset as int
        }) % 65536,
{
    let low: i64 = (base % 65536) as i64;
    let signed: i64 = if back {
        -(offset as i64)
    } else {
        offset as i64
    };
    let lifted: i64 = low + signed + 0x1_0000_0000;
    let r: u64 = (lifted as u64) % 65536;
    assert(r == (base + signed) % 65536) by {
        let b = base as int;
        let o = signed as int;
        assert(lifted == b % 65536 + o + 65536 * 65536);
        assert((b % 65536 + o + 65536 * 65536) % 65536 == (b + o) % 65536) by {
            assert(b == 65536 * (b / 65536) + b % 65536);
            vstd::arithmetic::div_mod::lemma_mod_multiples_vanish(
                65536 - b / 65536,
                b + o,
                65536,
            );
            assert(65536 * (65536 - b / 65536) + (b + o) == b % 65536 + o + 65536 * 65536);
        }
    }
    r as u16
}

impl Assembler {
    /// The address that a label operand stands for.
    pub fn resolve(&self, l: &str) -> (r: Result<u16, String>)
        ensures
            message_text(r) == resolved(self@.labels, l@),
    {
        let text = strip_whitespace(l);
        let tv = chars_of(text.as_str());
        let cut = find_either(&tv, '+', '-');
        let name = text.as_str().substring_char(0, cut);
        assert(name@ =~= label_name(l@));
        let mut back = false;
        let offset: i32 = if cut < tv.len() {
            let rest = text.as_str().substring_char(cut + 1, tv.len());
            assert(rest@ =~= label_text(l@).skip(cut + 1));
            let rv = chars_of(rest);
            let end = find_either(&rv, '+', '-');
            let literal = rest.substring_char(0, end);
            assert(literal@ =~= label_literal(l@));
            back = find(&tv, '-') < tv.len();
            match parse_int_literal::<i32>(literal) {
                Ok(v) => v,
                Err(e) => {
                    return Err(e);
                },
            }
        } else {
            0
        };
        match self.labels.get(name) {
            Some(a) => Ok(displaced(*a, offset, back)),
            None => {
                let mut m = String::from_str("unrecognised label ");
                m.append(name);
                Err(m)
            },
        }
    }

    /// The bytes that a line stands for.
    pub fn line_to_bytes(&self, line: &Line) -> (r: Result<Vec<u8>, String>)
        ensures
            bytes_text(r) == encoded(self@.labels, line@),
    {
        let mut ret: Vec<u8> = Vec::new();
        if line.instruction == Instruction::Dat {
            match &line.operand {
                Operand::Byte(b) => {
                    ret.push(*b);
                    assert(ret@ =~= seq![*b]);
                },
                Operand::ByteBlock(b) => {
                    ret = b.clone();
                    assert(ret@ =~= b@);
                },
                _ => {
                    assert(ret@ =~= Seq::<u8>::empty());
                },
            }
        } else {
            let code = line.instruction.opcode();
            ret.push(code);
            match &line.operand {
                Operand::Addr(a) => {
                    let (hi, lo) = u16_to_bytes(*a);
                    ret.push(hi);
                    ret.push(lo);
                    assert(ret@ =~= with_address(code, *a));
                },
                Operand::Byte(b) => {
                    ret.push(*b);
                    assert(ret@ =~= seq![code, *b]);
                },
                Operand::Label(l) => {
                    match self.resolve(l.as_str()) {
                        Ok(a) => {
                            let (hi, lo) = u16_to_bytes(a);
                            ret.push(hi);
                            ret.push(lo);
                            assert(ret@ =~= with_address(code, a));
                        },
                        Err(e) => {
                            return Err(e);
                        },
                    }
                },
                _ => {
                    assert(ret@ =~= seq![code]);
                },
            }
        }
        Ok(ret)
    }

    /// Links the lines into the image: every line but `org` is encoded and
    /// written where the assembly counter stands, `org` moves the counter.
    /// The counter is left where linking ended.
    pub fn compile(&mut self) -> (r: Result<Box<[u8]>, String>)
        ensures
            (final(self).counter, image_text(r)) == linked(old(self)@.lines, old(self)@.labels),
            final(self)@ == old(self)@.with_counter(final(self).counter),
    {
        let mut ret: Vec<u8> = Vec::new();
        self.counter = 0;
        let ghost lines = old(self)@.lines;
        let ghost labels = old(self)@.labels;
        let mut i: usize = 0;
        while i < self.lines.len()
            invariant
                i <= self.lines.len(),
                self@ == old(self)@.with_counter(self.counter),
                lines == self@.lines,
                labels == self@.labels,
                link_from(lines, i as nat, labels, ret@, self.counter) == linked(lines, labels),
            decreases self.lines.len() - i,
        {
            assert(lines[i as int] == self.lines@[i as int]@);
            if self.lines[i].instruction == Instruction::Org {
                self.counter = match &self.lines[i].operand {
                    Operand::Addr(a) => *a as usize,
                    _ => 0,
                };
            } else {
                match self.line_to_bytes(&self.lines[i]) {
                    Ok(bytes) => {
                        if bytes.len() > IMAGE_LIMIT || self.counter > IMAGE_LIMIT - bytes.len() {
                            let mut m = String::from_str("line ");
                            m.append(decimal_text(self.lines[i].program_text_line).as_str());
                            m.append(": image does not fit in 65536 bytes");
                            return Err(m);
                        }
                        place(&mut ret, self.counter, &bytes);
                        self.counter = self.counter + bytes.len();
                    },
                    Err(e) => {
                        let mut m = String::from_str("line ");
                        m.append(decimal_text(self.lines[i].program_text_line).as_str());
                        m.append(": ");
                        m.append(e.as_str());
                        return Err(m);
                    },
                }
            }
            i += 1;
        }
        Ok(boxed(ret))
    }
}

/// Linking a program that continues after `lines` starts like linking
/// `lines`: where that succeeds, the rest is linked onto its image from
/// where its counter stands.
pub proof fn lemma_link_prefix(
    lines: Seq<LineView>,
    more: Seq<LineView>,
    i: nat,
    labels: Map<Seq<char>, usize>,
    image: Seq<u8>,
    counter: usize,
)
    requires
        i <= lines.len(),
        link_from(lines, i, labels, image, counter).1 is Ok,
    ensures
        link_from(lines + more, i, labels, image, counter) == link_from(
            lines + more,
            lines.len(),
            labels,
            link_from(lines, i, labels, image, counter).1->Ok_0,
            link_from(lines, i, labels, image, counter).0,
        ),
    decreases lines.len() - i,
{
    if i < lines.len() {
        let all = lines + more;
        let line = lines[i as int];
        assert(all[i as int] == line);
        if line.instruction == Instruction::Org {
            lemma_link_prefix(lines, more, i + 1, labels, image, origin(line));
        } else {
            let bytes = encoded(labels, line)->Ok_0;
            lemma_link_prefix(
                lines,
                more,
                i + 1,
                labels,
                overlay(image, counter as int, bytes),
                (counter + bytes.len()) as usize,
            );
        }
    }
}

/// `org` followed by an instruction places the first byte of the
/// instruction at the address that `org` names. What lay below that address
/// stays as it was, and what lies between the end of the image so far and
/// that address is zero.
pub proof fn lemma_org_places(
    before: Seq<LineView>,
    org: LineView,
    line: LineView,
    labels: Map<Seq<char>, usize>,
    address: u16,
)
    requires
        linked(before, labels).1 is Ok,
        org.instruction == Instruction::Org,
        org.operand == OperandView::Addr(address),
        line.instruction != Instruction::Org,
        encoded(labels, line) is Ok,
        encoded(labels, line)->Ok_0.len() > 0,
        address + encoded(labels, line)->Ok_0.len() <= IMAGE_LIMIT,
    ensures
        linked(before + seq![org, line], labels).1 is Ok,
        ({
            let old_image = linked(before, labels).1->Ok_0;
            let image = linked(before + seq![org, line], labels).1->Ok_0;
            let bytes = encoded(labels, line)->Ok_0;
            &&& image == overlay(old_image, address as int, bytes)
            &&& image[address as int] == bytes[0]
            &&& forall|i: int| old_image.len() <= i < address ==> image[i] == 0
            &&& forall|i: int| 0 <= i < old_image.len() && i < address ==> image[i] == old_image[i]
        }),
{
    let more = seq![org, line];
    let all = before + more;
    let n = before.len();
    let old_image = linked(before, labels).1->Ok_0;
    let counter = linked(before, labels).0;
    let bytes = encoded(labels, line)->Ok_0;
    lemma_link_prefix(before, more, 0, labels, Seq::empty(), 0);
    assert(all[n as int] == org);
    assert(all[n as int + 1] == line);
    assert(all.len() == n + 2);
    assert(link_from(all, n, labels, old_image, counter) == link_from(
        all,
        n + 1,
        labels,
        old_image,
        address as usize,
    ));
    assert(link_from(all, n + 1, labels, old_image, address as usize) == link_from(
        all,
        n + 2,
        labels,
        overlay(old_image, address as int, bytes),
        (address + bytes.len()) as usize,
    ));
}

/// Whether one of the lines from the `i`-th on writes the byte at
/// `address`, the assembly counter standing at `counter`.
pub open spec fn writes(
    lines: Seq<LineView>,
    i: nat,
    labels: Map<Seq<char>, usize>,
    counter: usize,
    address: int,
) -> bool
    decreases lines.len() - i,
{
    if i >= lines.len() {
        false
    } else {
        let line = lines[i as int];
        if line.instruction == Instruction::Org {
            writes(lines, i + 1, labels, origin(line), address)
        } else {
            match encoded(labels, line) {
                Err(_) => false,
                Ok(bytes) => counter + bytes.len() <= IMAGE_LIMIT && (counter <= address < counter
                    + bytes.len() || writes(
                    lines,
                    i + 1,
                    labels,
                    (counter + bytes.len()) as usize,
                    address,
                )),
            }
        }
    }
}

/// Linking writes where the lines write and nowhere else: a byte that no
/// line writes is as it was in the image before, or zero where the image
/// did not reach it; every byte written lies in the image; and where the
/// image has grown, its last byte was written.
pub proof fn lemma_link_shape(
    lines: Seq<LineView>,
    i: nat,
    labels: Map<Seq<char>, usize>,
    image: Seq<u8>,
    counter: usize,
)
    requires
        i <= lines.len(),
        link_from(lines, i, labels, image, counter).1 is Ok,
    ensures
        ({
            let out = link_from(lines, i, labels, image, counter).1->Ok_0;
            &&& image.len() <= out.len()
            &&& forall|a: int|
                0 <= a < out.len() && !#[trigger] writes(lines, i, labels, counter, a) ==> out[a]
                    == if a < image.len() {
                    image[a]
                } else {
                    0u8
                }
            &&& forall|a: int| #[trigger] writes(lines, i, labels, counter, a) ==> 0 <= a < out.len()
            &&& image.len() < out.len() ==> writes(lines, i, labels, counter, out.len() - 1)
        }),
    decreases lines.len() - i,
{
    let out = link_from(lines, i, labels, image, counter).1->Ok_0;
    if i >= lines.len() {
        assert forall|a: int| !#[trigger] writes(lines, i, labels, counter, a) by {}
    } else {
        let line = lines[i as int];
        if line.instruction == Instruction::Org {
            lemma_link_shape(lines, i + 1, labels, image, origin(line));
            assert forall|a: int| #[trigger]
                writes(lines, i, labels, counter, a) == writes(
                    lines,
                    i + 1,
                    labels,
                    origin(line),
                    a,
                ) by {}
        } else {
            let bytes = encoded(labels, line)->Ok_0;
            let next = overlay(image, counter as int, bytes);
            let moved = (counter + bytes.len()) as usize;
            lemma_link_shape(lines, i + 1, labels, next, moved);
            assert forall|a: int| #[trigger]
                writes(lines, i, labels, counter, a) == (counter <= a < counter + bytes.len()
                    || writes(lines, i + 1, labels, moved, a)) by {}
        }
    }
}

/// In the image that a program links to, every byte that no line wrote is
/// zero, and the image ends with the byte written at the highest address.
pub proof fn lemma_unwritten_is_zero(lines: Seq<LineView>, labels: Map<Seq<char>, usize>)
    requires
        linked(lines, labels).1 is Ok,
    ensures
        ({
            let image = linked(lines, labels).1->Ok_0;
            &&& forall|a: int|
                0 <= a < image.len() && !#[trigger] writes(lines, 0, labels, 0, a) ==> image[a]
                    == 0
            &&& forall|a: int| #[trigger] writes(lines, 0, labels, 0, a) ==> 0 <= a < image.len()
            &&& image.len() > 0 ==> writes(lines, 0, labels, 0, image.len() - 1)
        }),
{
    lemma_link_shape(lines, 0, labels, Seq::empty(), 0);
}

} // verus!
