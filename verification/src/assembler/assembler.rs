//! The state of an assembly and the entry point that runs its passes.

use vstd::prelude::*;
use vstd::string::*;
use crate::text::{
    chars_of, decimal, decimal_text, lemma_line_index, line_index, non_blank, picked, same, split,
    split_on, texts, trim, trimmed,
};
use super::declare::declared;
use super::line::{line_views, Line, LineView};
use super::link::{image_text, linked};
use super::parse::{outcome_text, read_line_spec};
use super::table::Table;

verus! {

/// How deep macro invocations may nest. A macro that invokes itself would
/// never end; at this depth the assembler gives up instead.
pub const MACRO_DEPTH: usize = 32;

/// The largest image: all of the processor's memory.
pub const IMAGE_LIMIT: usize = 65536;

/// The state of one assembly.
pub struct Assembler {
    /// The lines parsed so far.
    pub lines: Vec<Line>,
    /// The address that each label stands for.
    pub labels: Table<usize>,
    /// The assembly counter: where the next byte would land.
    pub counter: usize,
    /// The named byte constants.
    pub constants: Table<u8>,
    /// The body of each macro.
    pub macros: Table<Vec<String>>,
}

/// The mathematical image of an [`Assembler`].
pub struct AsmState {
    pub lines: Seq<LineView>,
    pub labels: Map<Seq<char>, usize>,
    pub counter: usize,
    pub constants: Map<Seq<char>, u8>,
    pub macros: Map<Seq<char>, Seq<Seq<char>>>,
}

impl View for Assembler {
    type V = AsmState;

    open spec fn view(&self) -> AsmState {
        AsmState {
            lines: line_views(self.lines@),
            labels: self.labels@,
            counter: self.counter,
            constants: self.constants@,
            macros: self.macros@,
        }
    }
}

impl AsmState {
    /// The state before anything was read.
    pub open spec fn empty() -> AsmState {
        AsmState {
            lines: Seq::empty(),
            labels: Map::empty(),
            counter: 0,
            constants: Map::empty(),
            macros: Map::empty(),
        }
    }

    /// Whether every line has an operand of a shape that its instruction
    /// takes.
    pub open spec fn wf(self) -> bool {
        forall|i: int| 0 <= i < self.lines.len() ==> (#[trigger] self.lines[i]).wf()
    }
}

impl Assembler {
    /// An assembler that has read nothing.
    pub fn new() -> (a: Assembler)
        ensures
            a@ == AsmState::empty(),
    {
        let a = Assembler {
            lines: Vec::new(),
            labels: Table::new(),
            counter: 0,
            constants: Table::new(),
            macros: Table::new(),
        };
        assert(line_views(a.lines@) =~= Seq::<LineView>::empty());
        a
    }
}

impl Default for Assembler {
    fn default() -> (a: Assembler)
        ensures
            a@ == AsmState::empty(),
    {
        Assembler::new()
    }
}

/// Whether a program opens with a block of declarations: whether the first
/// of its lines that holds more than white space starts with `#`.
pub open spec fn opens_with_declarations(lines: Seq<Seq<char>>) -> bool
    decreases lines.len(),
{
    if lines.len() == 0 {
        false
    } else if trimmed(lines[0]).len() == 0 {
        opens_with_declarations(lines.drop_first())
    } else {
        lines[0][0] == '#'
    }
}

/// What reading the lines from the `i`-th on does to the state `st`. The
/// record of each line is added to the lines of the state; the first line
/// that fails ends the reading, its message prefixed with its number,
/// counted from 1.
pub open spec fn read_from(st: AsmState, lines: Seq<Seq<char>>, i: nat) -> (
    AsmState,
    Result<(), Seq<char>>,
)
    decreases lines.len() - i,
{
    if i >= lines.len() {
        (st, Ok(()))
    } else {
        let (st1, r) = read_line_spec(st, lines[i as int], i as usize, MACRO_DEPTH as nat);
        match r {
            Err(e) => (st1, Err("error on line "@ + decimal(i + 1) + ": "@ + e)),
            Ok(Some(line)) => read_from(
                AsmState { lines: st1.lines.push(line), ..st1 },
                lines,
                i + 1,
            ),
            Ok(None) => read_from(st1, lines, i + 1),
        }
    }
}

/// The image of the program whose lines from the `from`-th on are
/// instructions, read in the state `st`.
pub open spec fn assembled_from(st: AsmState, lines: Seq<Seq<char>>, from: nat) -> Result<
    Seq<u8>,
    Seq<char>,
> {
    let (st1, r) = read_from(st, lines, from);
    match r {
        Err(e) => Err(e),
        Ok(_) => match linked(st1.lines, st1.labels).1 {
            Ok(image) => Ok(image),
            Err(e) => Err("error compiling: "@ + e),
        },
    }
}

/// The image that a program assembles to, or the message of its first
/// failure.
///
/// The program is split into lines. Where it opens with declarations, the
/// lines up to the line `#ENDD` are the declarations, those of them aside
/// that hold only white space; without that line the program fails. The
/// lines after it, or all lines where there are no declarations, are read
/// as instructions and then linked. The message of a line that fails is
/// prefixed with the number of the line, counted from 1.
pub open spec fn assembled(program: Seq<char>) -> Result<Seq<u8>, Seq<char>> {
    let lines = split(program, '\n');
    let end = line_index(lines, "#ENDD"@, 0);
    if !opens_with_declarations(lines) {
        assembled_from(AsmState::empty(), lines, 0)
    } else if end >= lines.len() {
        Err("error on line "@ + decimal(lines.len()) + ": declarations without #ENDD"@)
    } else {
        let (st, r) = declared(AsmState::empty(), non_blank(lines.take(end)));
        match r {
            Err((k, e)) => Err(
                "error on line "@ + decimal((picked(lines.take(end))[k as int] + 1) as nat) + ": "@
                    + e,
            ),
            Ok(_) => assembled_from(st, lines, (end + 1) as nat),
        }
    }
}

/// Tells whether a program opens with a block of declarations.
pub fn has_declarations(lines: &Vec<String>) -> (r: bool)
    ensures
        r == opens_with_declarations(texts(lines@)),
{
    let ghost all = texts(lines@);
    let mut i: usize = 0;
    assert(all.skip(0) =~= all);
    while i < lines.len()
        invariant
            i <= lines.len(),
            all == texts(lines@),
            opens_with_declarations(all.skip(i as int)) == opens_with_declarations(all),
        decreases lines.len() - i,
    {
        let ghost rest = all.skip(i as int);
        assert(rest.drop_first() =~= all.skip(i + 1));
        assert(rest[0] == lines@[i as int]@);
        let line = lines[i].as_str();
        if !trim(line).is_empty() {
            let v = chars_of(line);
            return v[0] == '#';
        }
        i += 1;
    }
    false
}

/// Assembles a program: reads its declarations, parses its lines and links
/// them into the image.
pub fn assemble(program: &str) -> (r: Result<Box<[u8]>, String>)
    ensures
        image_text(r) == assembled(program@),
{
    let mut a = Assembler::new();
    let lines = split_on(program, '\n');
    let ghost all = texts(lines@);
    let mut i: usize = 0;
    if has_declarations(&lines) {
        let mut declarations: Vec<String> = Vec::new();
        let mut numbers: Vec<usize> = Vec::new();
        assert(all.take(0) =~= Seq::<Seq<char>>::empty());
        while i < lines.len() && !same(lines[i].as_str(), "#ENDD")
            invariant
                i <= lines.len(),
                all == texts(lines@),
                forall|j: int| 0 <= j < i ==> #[trigger] all[j] != "#ENDD"@,
                texts(declarations@) == non_blank(all.take(i as int)),
                numbers@.len() == picked(all.take(i as int)).len(),
                numbers@.len() == declarations@.len(),
                forall|j: int|
                    0 <= j < numbers@.len() ==> #[trigger] numbers@[j] == picked(
                        all.take(i as int),
                    )[j] && numbers@[j] < i,
            decreases lines.len() - i,
        {
            let ghost upto = all.take(i + 1);
            assert(upto.drop_last() =~= all.take(i as int));
            assert(upto.last() == lines@[i as int]@);
            if !trim(lines[i].as_str()).is_empty() {
                let ghost before = texts(declarations@);
                declarations.push(String::from_str(lines[i].as_str()));
                numbers.push(i);
                assert(texts(declarations@) =~= before.push(lines@[i as int]@));
            }
            i += 1;
        }
        proof {
            if i < lines.len() {
                assert(all[i as int] == lines@[i as int]@);
            }
            lemma_line_index(all, "#ENDD"@, 0, i as int);
        }
        if i >= lines.len() {
            let mut m = String::from_str("error on line ");
            m.append(decimal_text(lines.len()).as_str());
            m.append(": declarations without #ENDD");
            return Err(m);
        }
        match a.declare_all(&declarations) {
            Ok(_) => {},
            Err((k, e)) => {
                let mut m = String::from_str("error on line ");
                m.append(decimal_text(numbers[k] + 1).as_str());
                m.append(": ");
                m.append(e.as_str());
                return Err(m);
            },
        }
        i += 1;
    }
    let ghost from = i as nat;
    let ghost start = a@;
    assert(assembled(program@) == assembled_from(start, all, from));
    while i < lines.len()
        invariant
            i <= lines.len(),
            all == texts(lines@),
            assembled(program@) == assembled_from(start, all, from),
            read_from(a@, all, i as nat) == read_from(start, all, from),
        decreases lines.len() - i,
    {
        assert(all[i as int] == lines@[i as int]@);
        let ghost before = a@;
        let outcome = a.read_line(lines[i].as_str(), i);
        assert(read_line_spec(before, all[i as int], i, MACRO_DEPTH as nat) == (
            a@,
            outcome_text(outcome),
        ));
        match outcome {
            Ok(Some(line)) => {
                let ghost held = a.lines@;
                let ghost state = a@;
                a.lines.push(line);
                assert(line_views(a.lines@) =~= line_views(held).push(line@));
                assert(a@ == AsmState { lines: state.lines.push(line@), ..state });
            },
            Ok(None) => {},
            Err(e) => {
                let mut m = String::from_str("error on line ");
                m.append(decimal_text(i + 1).as_str());
                m.append(": ");
                m.append(e.as_str());
                return Err(m);
            },
        }
        i += 1;
    }
    match a.compile() {
        Ok(bytes) => Ok(bytes),
        Err(e) => {
            let mut m = String::from_str("error compiling: ");
            m.append(e.as_str());
            Err(m)
        },
    }
}

} // verus!
