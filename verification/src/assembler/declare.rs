//! The declaration pass: named constants and macros.

use vstd::prelude::*;
use vstd::string::*;
use crate::text::{
    begins, chars_of, find_word_end, split, split_on, starts_with, texts, trim, trimmed, word_end,
};
use crate::utils::{literal_value, message_text, parse_int_literal};
use super::assembler::{AsmState, Assembler};

verus! {

impl AsmState {
    /// The state with the constant `name` set to `value`.
    pub open spec fn with_constant(self, name: Seq<char>, value: u8) -> AsmState {
        AsmState { constants: self.constants.insert(name, value), ..self }
    }

    /// The state with the macro `name` set to `body`.
    pub open spec fn with_macro(self, name: Seq<char>, body: Seq<Seq<char>>) -> AsmState {
        AsmState { macros: self.macros.insert(name, body), ..self }
    }
}

/// The name that a `#MACR` line declares: what follows the tag, trimmed,
/// up to the first white space or `;`.
pub open spec fn declared_name(d: Seq<char>) -> Seq<char> {
    let rest = trimmed(d.skip("#MACR"@.len() as int));
    rest.take(word_end(rest, ';'))
}

/// What a `#BYTE` line does to the state: its second field, split at
/// spaces, names the constant and its third is the value.
pub open spec fn declare_byte(st: AsmState, d: Seq<char>) -> (AsmState, Result<(), Seq<char>>) {
    let fields = split(d, ' ');
    if fields.len() < 2 {
        (st, Err("declaration \""@ + d + "\" missing name"@))
    } else if fields.len() < 3 {
        (st, Err("declaration \""@ + d + "\" missing value"@))
    } else {
        match literal_value::<u8>(fields[2]) {
            Ok(v) => (st.with_constant(fields[1], v), Ok(())),
            Err(e) => (st, Err(e)),
        }
    }
}

/// What the declarations from the `i`-th on do to the state `st`. `open`
/// holds the name of the macro that is being declared and the index of the
/// line that opened it. A failure comes with the index of the declaration
/// that it is about.
///
/// Outside a macro, a line that starts with `;` is a comment, `#BYTE`
/// declares a constant and `#MACR` opens a macro; any other line fails.
/// Inside a macro, every line up to the first that starts with `#ENDM`
/// belongs to the body. A macro still open at the end fails.
pub open spec fn declare_from(
    st: AsmState,
    decs: Seq<Seq<char>>,
    i: nat,
    open: Option<(Seq<char>, nat)>,
) -> (AsmState, Result<(), (nat, Seq<char>)>)
    decreases decs.len() - i,
{
    if i >= decs.len() {
        match open {
            Some((_, opened)) => (st, Err((opened, "macro without close tag"@))),
            None => (st, Ok(())),
        }
    } else {
        let d = decs[i as int];
        match open {
            Some((name, opened)) => if starts_with(d, "#ENDM"@) {
                declare_from(
                    st.with_macro(name, decs.subrange(opened as int + 1, i as int)),
                    decs,
                    i + 1,
                    None,
                )
            } else {
                declare_from(st, decs, i + 1, open)
            },
            None => if starts_with(d, ";"@) {
                declare_from(st, decs, i + 1, None)
            } else if starts_with(d, "#BYTE"@) {
                let (st1, r) = declare_byte(st, d);
                match r {
                    Ok(_) => declare_from(st1, decs, i + 1, None),
                    Err(e) => (st1, Err((i, e))),
                }
            } else if starts_with(d, "#MACR"@) {
                declare_from(st, decs, i + 1, Some((declared_name(d), i)))
            } else {
                (st, Err((i, "unrecognised declaration \""@ + d + "\""@)))
            },
        }
    }
}

/// What a block of declarations does to the state `st`.
pub open spec fn declared(st: AsmState, decs: Seq<Seq<char>>) -> (
    AsmState,
    Result<(), (nat, Seq<char>)>,
) {
    declare_from(st, decs, 0, None)
}

/// A located failure without its location.
pub open spec fn unlocated(r: Result<(), (nat, Seq<char>)>) -> Result<(), Seq<char>> {
    match r {
        Ok(_) => Ok(()),
        Err((_, m)) => Err(m),
    }
}

/// The outcome of reading declarations with mathematical images in place
/// of the values.
pub open spec fn located_text(r: Result<(), (usize, String)>) -> Result<(), (nat, Seq<char>)> {
    match r {
        Ok(_) => Ok(()),
        Err((k, m)) => Err((k as nat, m@)),
    }
}

impl Assembler {
    /// Registers the constant that the `#BYTE` line `d` declares.
    pub fn declare_constant(&mut self, d: &str) -> (r: Result<(), String>)
        ensures
            (final(self)@, message_text(r)) == declare_byte(old(self)@, d@),
    {
        let fields = split_on(d, ' ');
        if fields.len() < 2 {
            let mut m = String::from_str("declaration \"");
            m.append(d);
            m.append("\" missing name");
            return Err(m);
        }
        if fields.len() < 3 {
            let mut m = String::from_str("declaration \"");
            m.append(d);
            m.append("\" missing value");
            return Err(m);
        }
        assert(texts(fields@)[1] == fields@[1]@);
        assert(texts(fields@)[2] == fields@[2]@);
        match parse_int_literal::<u8>(fields[2].as_str()) {
            Ok(v) => {
                self.constants.insert(String::from_str(fields[1].as_str()), v);
                Ok(())
            },
            Err(e) => Err(e),
        }
    }

    /// Reads a block of declarations: registers its constants and its
    /// macros.
    pub fn process_declares(&mut self, decs: Vec<String>) -> (r: Result<(), String>)
        ensures
            final(self)@ == declared(old(self)@, texts(decs@)).0,
            message_text(r) == unlocated(declared(old(self)@, texts(decs@)).1),
    {
        match self.declare_all(&decs) {
            Ok(_) => Ok(()),
            Err((_, m)) => Err(m),
        }
    }

    /// Reads a block of declarations; a failure comes with the index of the
    /// declaration that it is about.
    pub fn declare_all(&mut self, decs: &Vec<String>) -> (r: Result<(), (usize, String)>)
        ensures
            (final(self)@, located_text(r)) == declared(old(self)@, texts(decs@)),
            r matches Err((k, _)) ==> k < decs.len(),
    {
        let ghost all = texts(decs@);
        let ghost goal = declared(old(self)@, all);
        let mut name: Option<String> = None;
        let mut body: Vec<String> = Vec::new();
        let mut opened: usize = 0;
        let mut i: usize = 0;
        while i < decs.len()
            invariant
                i <= decs.len(),
                all == texts(decs@),
                goal == declared(old(self)@, all),
                name is Some ==> opened < i && texts(body@) == all.subrange(opened + 1, i as int),
                declare_from(
                    self@,
                    all,
                    i as nat,
                    match name {
                        Some(n) => Some((n@, opened as nat)),
                        None => None,
                    },
                ) == goal,
            decreases decs.len() - i,
        {
            let d = decs[i].as_str();
            assert(all[i as int] == d@);
            if name.is_some() {
                if begins(d, "#ENDM") {
                    let n = name.take().unwrap();
                    assert(body.deep_view() =~= texts(body@));
                    self.macros.insert(n, body);
                    body = Vec::new();
                } else {
                    let ghost before = texts(body@);
                    body.push(String::from_str(d));
                    assert(texts(body@) =~= before.push(d@));
                    assert(all.subrange(opened + 1, i + 1) =~= all.subrange(
                        opened + 1,
                        i as int,
                    ).push(d@));
                }
            } else if begins(d, ";") {
            } else if begins(d, "#BYTE") {
                match self.declare_constant(d) {
                    Ok(_) => {},
                    Err(e) => {
                        return Err((i, e));
                    },
                }
            } else if begins(d, "#MACR") {
                let width = chars_of(d).len();
                let tag = chars_of("#MACR").len();
                let rest = trim(d.substring_char(tag, width));
                assert(d@.subrange(tag as int, width as int) =~= d@.skip(tag as int));
                let rv = chars_of(rest);
                let end = find_word_end(&rv, ';');
                let declared = rest.substring_char(0, end);
                assert(rest@.subrange(0, end as int) =~= rest@.take(end as int));
                name = Some(String::from_str(declared));
                body = Vec::new();
                opened = i;
                assert(texts(body@) =~= all.subrange(opened + 1, i + 1));
            } else {
                let mut m = String::from_str("unrecognised declaration \"");
                m.append(d);
                m.append("\"");
                return Err((i, m));
            }
            i += 1;
        }
        if name.is_some() {
            Err((opened, String::from_str("macro without close tag")))
        } else {
            Ok(())
        }
    }
}

} // verus!
