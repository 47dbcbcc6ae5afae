//! Small helpers shared by the assembler and the processor: big-endian byte
//! pairs, integer literals, sparse writes and the run options.

use vstd::prelude::*;
use vstd::string::*;
use crate::numeral::Numeral;
use crate::text::{chars_of, occurs_at, without};

verus! {

/// What the tool is asked to do.
#[derive(Clone, Copy, Debug, PartialEq, Eq, Structural)]
pub enum Command {
    /// Turn a source file into a byte image.
    Assemble,
    /// Execute a byte image.
    Run,
    /// Assemble a source file and execute the image.
    AssembleAndRun,
}

impl Default for Command {
    fn default() -> (c: Command)
        ensures
            c == Command::Run,
    {
        Command::Run
    }
}

/// The options of one run of the tool.
pub struct Options {
    pub command: Command,
    /// The source or image file.
    pub path: String,
    /// Where the image is written.
    pub out_path: String,
    /// 0: silent; 1: a readout at each breakpoint; 2: also each instruction
    /// byte; 3: a readout after every cycle.
    pub debug_level: i32,
    /// Milliseconds to wait after every instruction.
    pub clock_period: u64,
}

impl Default for Options {
    fn default() -> (o: Options)
        ensures
            o.command == Command::Run,
            o.path@ == Seq::<char>::empty(),
            o.out_path@ == Seq::<char>::empty(),
            o.debug_level == 0,
            o.clock_period == 0,
    {
        Options {
            command: Command::Run,
            path: String::new(),
            out_path: String::new(),
            debug_level: 0,
            clock_period: 0,
        }
    }
}

impl Options {
    /// Whether the debug level is one of 0, 1, 2 and 3.
    pub open spec fn valid(&self) -> bool {
        0 <= self.debug_level <= 3
    }

    /// Whether each instruction byte is shown as it is executed: at the
    /// debug levels 2 and 3.
    pub open spec fn shows_instructions(&self) -> bool {
        self.debug_level == 2 || self.debug_level == 3
    }

    /// Whether a readout is due after an instruction, given whether it was
    /// a breakpoint and whether the processor has halted: at level 3 after
    /// every instruction, at the levels 1 and 2 where the run stops.
    pub open spec fn shows_readout(&self, brk: bool, halted: bool) -> bool {
        self.debug_level == 3 || ((self.debug_level == 1 || self.debug_level == 2) && (brk
            || halted))
    }

    /// Tells whether the debug level is one that the tool knows.
    pub fn is_valid(&self) -> (r: bool)
        ensures
            r == self.valid(),
    {
        0 <= self.debug_level && self.debug_level <= 3
    }

    /// Tells whether each instruction byte is to be shown.
    pub fn prints_instructions(&self) -> (r: bool)
        ensures
            r == self.shows_instructions(),
    {
        self.debug_level == 2 || self.debug_level == 3
    }

    /// Tells whether a readout is due after an instruction.
    pub fn readout_due(&self, brk: bool, halted: bool) -> (r: bool)
        ensures
            r == self.shows_readout(brk, halted),
    {
        self.debug_level == 3 || ((self.debug_level == 1 || self.debug_level == 2) && (brk
            || halted))
    }
}

/// The 16-bit value whose high byte is `hb` and whose low byte is `lb`.
pub fn bytes_to_16(hb: u8, lb: u8) -> (r: u16)
    ensures
        r == hb * 256 + lb,
{
    let hi: u16 = hb as u16;
    let lo: u16 = lb as u16;
    assert(hi << 8 == hi * 256) by (bit_vector)
        requires
            hi < 256,
    ;
    (hi << 8) + lo
}

/// The high and the low byte of `value`.
pub fn u16_to_bytes(value: u16) -> (r: (u8, u8))
    ensures
        r.0 == value / 256,
        r.1 == value % 256,
{
    assert(value >> 8 == value / 256) by (bit_vector);
    assert(value & 255 == value % 256) by (bit_vector);
    ((value >> 8) as u8, (value & 255) as u8)
}

/// Splitting a 16-bit value into bytes and joining them gives it back, and
/// the other way round.
pub proof fn lemma_byte_pair_round_trip(value: u16, hb: u8, lb: u8)
    ensures
        (value / 256) * 256 + value % 256 == value,
        (hb * 256 + lb) / 256 == hb,
        (hb * 256 + lb) % 256 == lb,
{
}

/// The radix that the two-character prefix of a literal names.
pub open spec fn prefix_radix(s: Seq<char>) -> Option<u32> {
    if s.len() < 2 || s[0] != '0' {
        None
    } else if s[1] == 'b' {
        Some(2)
    } else if s[1] == 'd' {
        Some(10)
    } else if s[1] == 'x' {
        Some(16)
    } else {
        None
    }
}

/// How a radix is called in a message.
pub open spec fn radix_name(radix: u32) -> Seq<char> {
    if radix == 2 {
        "binary"@
    } else if radix == 10 {
        "decimal"@
    } else {
        "hex"@
    }
}

/// What the literal `s` comes to, given `plain`, the reading of all of `s`
/// in radix 10, and `body`, the reading of what follows its prefix in the
/// radix that the prefix names. Every failure carries the literal.
pub open spec fn literal_outcome<T>(s: Seq<char>, plain: Option<T>, body: Option<T>) -> Result<
    T,
    Seq<char>,
> {
    match plain {
        Some(v) => Ok(v),
        None => if s.len() < 3 {
            Err("literal "@ + s + " too short"@)
        } else {
            match prefix_radix(s) {
                None => Err("unsupported radix "@ + s.take(2) + " in literal "@ + s),
                Some(radix) => match body {
                    Some(v) => Ok(v),
                    None => Err(radix_name(radix) + " literal "@ + s + " failed to parse"@),
                },
            }
        },
    }
}

/// Whether the text `m` holds the text `s` somewhere.
pub open spec fn carries(m: Seq<char>, s: Seq<char>) -> bool {
    exists|i: int| occurs_at(m, i, s)
}

/// Every failure of a literal carries the literal: the message holds it in
/// full.
pub proof fn lemma_failure_carries_literal<T>(s: Seq<char>, plain: Option<T>, body: Option<T>)
    ensures
        literal_outcome(s, plain, body) matches Err(m) ==> carries(m, s),
{
    match literal_outcome(s, plain, body) {
        Ok(_) => {},
        Err(m) => {
            if s.len() < 3 {
                let at = "literal "@.len() as int;
                assert(m.subrange(at, at + s.len()) =~= s);
                assert(occurs_at(m, at, s));
            } else if prefix_radix(s) is None {
                let at = m.len() - s.len();
                assert(m.subrange(at, at + s.len()) =~= s);
                assert(occurs_at(m, at, s));
            } else {
                let at = (radix_name(prefix_radix(s)->Some_0) + " literal "@).len() as int;
                assert(m.subrange(at, at + s.len()) =~= s);
                assert(occurs_at(m, at, s));
            }
        },
    }
}

/// The reading of what follows the prefix of `s`, where `s` has a prefix
/// and something after it.
pub open spec fn prefixed_numeral<T: Numeral>(s: Seq<char>) -> Option<T> {
    match prefix_radix(s) {
        Some(radix) => if s.len() >= 3 {
            T::numeral(s.skip(2), radix)
        } else {
            None
        },
        None => None,
    }
}

/// The value of the integer literal `s`: unprefixed decimal, or `0b`, `0d`
/// or `0x` and digits in radix 2, 10 or 16; else the message that says what
/// is wrong with it.
pub open spec fn literal_value<T: Numeral>(s: Seq<char>) -> Result<T, Seq<char>> {
    literal_outcome(s, T::numeral(s, 10), prefixed_numeral::<T>(s))
}

/// A result with the text of its message in place of the message.
pub open spec fn message_text<T>(r: Result<T, String>) -> Result<T, Seq<char>> {
    match r {
        Ok(v) => Ok(v),
        Err(m) => Err(m@),
    }
}

/// Tells which radix the prefix of `v` names.
pub fn radix_of_prefix(v: &Vec<char>) -> (r: Option<u32>)
    ensures
        r == prefix_radix(v@),
        r matches Some(radix) ==> 2 <= radix <= 36,
{
    if v.len() < 2 || v[0] != '0' {
        None
    } else if v[1] == 'b' {
        Some(2)
    } else if v[1] == 'd' {
        Some(10)
    } else if v[1] == 'x' {
        Some(16)
    } else {
        None
    }
}

/// Decides what the literal `s` comes to from its two readings: `plain`,
/// all of `s` in radix 10, and `body`, what follows the prefix in the radix
/// that the prefix names.
pub fn classify_literal<T>(s: &str, plain: Option<T>, body: Option<T>) -> (r: Result<T, String>)
    ensures
        message_text(r) == literal_outcome(s@, plain, body),
{
    match plain {
        Some(v) => { return Ok(v); },
        None => {},
    }
    let v = chars_of(s);
    if v.len() < 3 {
        let mut m = String::from_str("literal ");
        m.append(s);
        m.append(" too short");
        return Err(m);
    }
    match radix_of_prefix(&v) {
        None => {
            let mut m = String::from_str("unsupported radix ");
            m.append(s.substring_char(0, 2));
            assert(s@.subrange(0, 2) =~= s@.take(2));
            m.append(" in literal ");
            m.append(s);
            Err(m)
        },
        Some(radix) => match body {
            Some(v) => Ok(v),
            None => {
                let mut m = if radix == 2 {
                    String::from_str("binary")
                } else if radix == 10 {
                    String::from_str("decimal")
                } else {
                    String::from_str("hex")
                };
                m.append(" literal ");
                m.append(s);
                m.append(" failed to parse");
                Err(m)
            },
        },
    }
}

/// Reads the integer literal `s`: unprefixed decimal, or `0b`, `0d` or `0x`
/// and digits in radix 2, 10 or 16. The value has to fit `T`.
pub fn parse_int_literal<T: Numeral>(s: &str) -> (r: Result<T, String>)
    ensures
        message_text(r) == literal_value::<T>(s@),
{
    let plain = T::read(s, 10);
    let v = chars_of(s);
    let body = match radix_of_prefix(&v) {
        Some(radix) => if v.len() >= 3 {
            let digits = s.substring_char(2, v.len());
            assert(s@.subrange(2, v.len() as int) =~= s@.skip(2));
            T::read(digits, radix)
        } else {
            None
        },
        None => None,
    };
    classify_literal(s, plain, body)
}

/// Writes `val` at `index`, first growing `vec` with default values as far
/// as needed.
pub fn set_vec_value_at_index<T: Default>(vec: &mut Vec<T>, val: T, index: usize)
    requires
        index < usize::MAX,
    ensures
        final(vec)@.len() == if index < old(vec)@.len() {
            old(vec)@.len() as int
        } else {
            index + 1
        },
        final(vec)@[index as int] == val,
        forall|i: int|
            0 <= i < old(vec)@.len() && i != index ==> #[trigger] final(vec)@[i] == old(vec)@[i],
        forall|i: int|
            old(vec)@.len() <= i < index ==> call_ensures(T::default, (), #[trigger] final(vec)@[i]),
{
    while index >= vec.len()
        invariant
            index < usize::MAX,
            vec@.len() >= old(vec)@.len(),
            vec@.len() <= index + 1 || vec@.len() == old(vec)@.len(),
            forall|i: int| 0 <= i < old(vec)@.len() ==> #[trigger] vec@[i] == old(vec)@[i],
            forall|i: int|
                old(vec)@.len() <= i < vec@.len() ==> call_ensures(T::default, (), #[trigger] vec@[i]),
        decreases index + 1 - vec@.len(),
    {
        vec.push(T::default());
    }
    vec.set(index, val);
}

/// `s` without its space characters.
pub fn strip_whitespace(s: &str) -> (r: String)
    ensures
        r@ == without(s@, ' '),
{
    let v = chars_of(s);
    let n = v.len();
    let mut r = String::new();
    let mut i: usize = 0;
    assert(v@.skip(0) =~= v@);
    while i < n
        invariant
            i <= n,
            n == v.len(),
            v@ == s@,
            r@ + without(v@.skip(i as int), ' ') == without(v@, ' '),
        decreases n - i,
    {
        let ghost rest = v@.skip(i as int);
        let ghost after = v@.skip(i + 1);
        assert(rest.drop_first() =~= after);
        if v[i] != ' ' {
            let ghost old_r = r@;
            r.append(s.substring_char(i, i + 1));
            assert(s@.subrange(i as int, i + 1) =~= seq![rest[0]]);
            assert(r@ + without(after, ' ') =~= old_r + (seq![rest[0]] + without(after, ' ')));
        }
        i += 1;
    }
    assert(v@.skip(n as int) =~= Seq::<char>::empty());
    assert(r@ + Seq::<char>::empty() =~= r@);
    r
}

} // verus!
