//! Reading numerals: the integer that a text denotes in a given radix.
//!
//! The reading itself is done by `num_traits`, which hands it on to the
//! standard library; this module states what comes back.

use vstd::prelude::*;

verus! {

/// The value of a digit: 0 to 9 for `0` to `9`, 10 to 35 for the letters
/// `a` to `z` in either case. 36, which no radix reaches, for any other
/// character.
pub open spec fn digit_value(c: char) -> int {
    let n = c as u32 as int;
    if 0x30 <= n <= 0x39 {
        n - 0x30
    } else if 0x61 <= n <= 0x7A {
        n - 0x61 + 10
    } else if 0x41 <= n <= 0x5A {
        n - 0x41 + 10
    } else {
        36
    }
}

/// Whether `s` is one digit of `radix` or more, and nothing else.
pub open spec fn is_digits(s: Seq<char>, radix: u32) -> bool {
    s.len() > 0 && forall|i: int| 0 <= i < s.len() ==> digit_value(#[trigger] s[i]) < radix
}

/// The number that the digits `s` denote in `radix`, the first digit
/// counting most.
pub open spec fn digits_value(s: Seq<char>, radix: u32) -> int
    decreases s.len(),
{
    if s.len() == 0 {
        0
    } else {
        digits_value(s.drop_last(), radix) * radix + digit_value(s.last())
    }
}

/// Whether `text` starts with a sign: `+`, or `-` where the type is
/// signed.
pub open spec fn has_sign(text: Seq<char>, signed: bool) -> bool {
    text.len() > 0 && (text[0] == '+' || (signed && text[0] == '-'))
}

/// The integer that `text` denotes in `radix`: an optional sign and then
/// digits only. `None` where `text` is anything else: empty, a sign alone,
/// or with a character that is no digit of the radix, white space
/// included.
pub open spec fn integer(text: Seq<char>, radix: u32, signed: bool) -> Option<int> {
    let digits = if has_sign(text, signed) {
        text.drop_first()
    } else {
        text
    };
    if !is_digits(digits, radix) {
        None
    } else if has_sign(text, signed) && text[0] == '-' {
        Some(-digits_value(digits, radix))
    } else {
        Some(digits_value(digits, radix))
    }
}

/// The `u8` that `text` denotes in `radix`, where it denotes an integer
/// that fits.
pub open spec fn numeral_u8(text: Seq<char>, radix: u32) -> Option<u8> {
    match integer(text, radix, false) {
        Some(v) => if v <= u8::MAX {
            Some(v as u8)
        } else {
            None
        },
        None => None,
    }
}

/// The `u16` that `text` denotes in `radix`, where it denotes an integer
/// that fits.
pub open spec fn numeral_u16(text: Seq<char>, radix: u32) -> Option<u16> {
    match integer(text, radix, false) {
        Some(v) => if v <= u16::MAX {
            Some(v as u16)
        } else {
            None
        },
        None => None,
    }
}

/// The `i32` that `text` denotes in `radix`, where it denotes an integer
/// that fits.
pub open spec fn numeral_i32(text: Seq<char>, radix: u32) -> Option<i32> {
    match integer(text, radix, true) {
        Some(v) => if i32::MIN <= v <= i32::MAX {
            Some(v as i32)
        } else {
            None
        },
        None => None,
    }
}

/// Calls `<u8 as num_traits::Num>::from_str_radix`, which is the standard
/// library's `u8::from_str_radix`, and drops the detail of its error.
/// Trusted: the call yields the value of an optional `+` and digits of the
/// radix, in either case of the letters, and an error for any other text
/// and for a value above 255. The radix is kept within 2..=36, outside of
/// which the call panics.
#[verifier::external_body]
pub(crate) fn read_u8(text: &str, radix: u32) -> (r: Option<u8>)
    requires
        2 <= radix <= 36,
    ensures
        r == numeral_u8(text@, radix),
{
    <u8 as num_traits::Num>::from_str_radix(text, radix).ok()
}

/// Calls `<u16 as num_traits::Num>::from_str_radix`, which is the standard
/// library's `u16::from_str_radix`, and drops the detail of its error.
/// Trusted: the call yields the value of an optional `+` and digits of the
/// radix, in either case of the letters, and an error for any other text
/// and for a value above 65535. The radix is kept within 2..=36, outside
/// of which the call panics.
#[verifier::external_body]
pub(crate) fn read_u16(text: &str, radix: u32) -> (r: Option<u16>)
    requires
        2 <= radix <= 36,
    ensures
        r == numeral_u16(text@, radix),
{
    <u16 as num_traits::Num>::from_str_radix(text, radix).ok()
}

/// Calls `<i32 as num_traits::Num>::from_str_radix`, which is the standard
/// library's `i32::from_str_radix`, and drops the detail of its error.
/// Trusted: the call yields the value of an optional `+` or `-` and digits
/// of the radix, in either case of the letters, and an error for any other
/// text and for a value that an `i32` cannot hold. The radix is kept
/// within 2..=36, outside of which the call panics.
#[verifier::external_body]
pub(crate) fn read_i32(text: &str, radix: u32) -> (r: Option<i32>)
    requires
        2 <= radix <= 36,
    ensures
        r == numeral_i32(text@, radix),
{
    <i32 as num_traits::Num>::from_str_radix(text, radix).ok()
}

/// An integer type that numerals can be read into.
pub trait Numeral: Sized {
    /// The value that `text` denotes in `radix`, where it denotes one that
    /// fits the type.
    spec fn numeral(text: Seq<char>, radix: u32) -> Option<Self>;

    /// Reads `text` as a numeral in `radix`.
    fn read(text: &str, radix: u32) -> (r: Option<Self>)
        requires
            2 <= radix <= 36,
        ensures
            r == Self::numeral(text@, radix),
    ;
}

impl Numeral for u8 {
    open spec fn numeral(text: Seq<char>, radix: u32) -> Option<u8> {
        numeral_u8(text, radix)
    }

    fn read(text: &str, radix: u32) -> (r: Option<u8>) {
        read_u8(text, radix)
    }
}

impl Numeral for u16 {
    open spec fn numeral(text: Seq<char>, radix: u32) -> Option<u16> {
        numeral_u16(text, radix)
    }

    fn read(text: &str, radix: u32) -> (r: Option<u16>) {
        read_u16(text, radix)
    }
}

impl Numeral for i32 {
    open spec fn numeral(text: Seq<char>, radix: u32) -> Option<i32> {
        numeral_i32(text, radix)
    }

    fn read(text: &str, radix: u32) -> (r: Option<i32>) {
        read_i32(text, radix)
    }
}

} // verus!
