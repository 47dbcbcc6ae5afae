//! Reading an image back: the instructions that the processor finds in the
//! bytes that the assembler emitted.

use vstd::prelude::*;
use super::isa::{lemma_decode_encode, Instruction, Narrow};
use super::line::LineView;
use super::link::{encoded, link_from, linked, overlay};

verus! {

/// How many bytes an instruction takes in an image: one for a narrow
/// operation, two for an immediate load, three for a wide operation.
pub open spec fn width(i: Instruction) -> int {
    match i {
        Instruction::Narrow(Narrow::LdaConst) => 2,
        Instruction::Narrow(_) => 1,
        _ => 3,
    }
}

/// The instructions that `count` decodings find in `image` from index `at`
/// on, each starting where the one before it ended.
pub open spec fn decoded(image: Seq<u8>, at: int, count: nat) -> Seq<Instruction>
    decreases count,
{
    if count == 0 || at < 0 || at >= image.len() {
        Seq::empty()
    } else {
        match Instruction::of_code(image[at]) {
            Some(i) => seq![i] + decoded(image, at + width(i), (count - 1) as nat),
            None => Seq::empty(),
        }
    }
}

/// The instructions of a sequence of lines.
pub open spec fn instructions(lines: Seq<LineView>) -> Seq<Instruction> {
    lines.map_values(|l: LineView| l.instruction)
}

/// Whether the lines hold operations of the processor only, no directive,
/// each with an operand of a shape that it takes.
pub open spec fn directive_free(lines: Seq<LineView>) -> bool {
    forall|i: int|
        0 <= i < lines.len() ==> {
            &&& (#[trigger] lines[i]).wf()
            &&& (lines[i].instruction is Narrow || lines[i].instruction is Wide)
        }
}

/// Linking directive-free lines from the end of the image on appends to the
/// image, and what it appends decodes to the instructions of the lines.
pub proof fn lemma_link_appends(
    lines: Seq<LineView>,
    i: nat,
    labels: Map<Seq<char>, usize>,
    image: Seq<u8>,
)
    requires
        directive_free(lines),
        i <= lines.len(),
        image.len() <= usize::MAX,
        link_from(lines, i, labels, image, image.len() as usize).1 is Ok,
    ensures
        ({
            let out = link_from(lines, i, labels, image, image.len() as usize).1->Ok_0;
            &&& image.len() <= out.len()
            &&& forall|j: int| 0 <= j < image.len() ==> out[j] == image[j]
            &&& decoded(out, image.len() as int, (lines.len() - i) as nat) == instructions(
                lines.skip(i as int),
            )
        }),
    decreases lines.len() - i,
{
    let out = link_from(lines, i, labels, image, image.len() as usize).1->Ok_0;
    if i >= lines.len() {
        assert(instructions(lines.skip(i as int)) =~= Seq::<Instruction>::empty());
    } else {
        let line = lines[i as int];
        assert(line.wf());
        let bytes = encoded(labels, line)->Ok_0;
        let next = overlay(image, image.len() as int, bytes);
        assert(bytes.len() == width(line.instruction));
        assert(bytes[0] == line.instruction.code());
        assert(next =~= image + bytes);
        lemma_link_appends(lines, i + 1, labels, next);
        lemma_decode_encode(line.instruction);
        assert(out[image.len() as int] == next[image.len() as int]);
        assert(lines.skip(i as int).drop_first() =~= lines.skip(i as int + 1));
        assert(instructions(lines.skip(i as int)) =~= seq![line.instruction] + instructions(
            lines.skip(i as int + 1),
        ));
    }
}

/// The image of a program without directives decodes back to the
/// instructions of the program: reading the emitted bytes from address 0
/// on, opcode by opcode, finds the mnemonics in their order.
pub proof fn lemma_round_trip(lines: Seq<LineView>, labels: Map<Seq<char>, usize>)
    requires
        directive_free(lines),
        linked(lines, labels).1 is Ok,
    ensures
        decoded(linked(lines, labels).1->Ok_0, 0, lines.len()) == instructions(lines),
{
    lemma_link_appends(lines, 0, labels, Seq::empty());
    assert(lines.skip(0) =~= lines);
}

} // verus!
