//! Text primitives over sequences of characters: trimming, searching,
//! splitting, replacing and rendering numbers.

use vstd::prelude::*;
use vstd::string::*;

verus! {

/// Whether `c` is white space: the characters with the Unicode property
/// `White_Space`.
pub open spec fn is_space(c: char) -> bool {
    let n = c as u32;
    ||| 0x09 <= n <= 0x0D
    ||| n == 0x20
    ||| n == 0x85
    ||| n == 0xA0
    ||| n == 0x1680
    ||| 0x2000 <= n <= 0x200A
    ||| n == 0x2028
    ||| n == 0x2029
    ||| n == 0x202F
    ||| n == 0x205F
    ||| n == 0x3000
}

/// The number of white-space characters at the start of `s`.
pub open spec fn leading(s: Seq<char>) -> nat
    decreases s.len(),
{
    if s.len() > 0 && is_space(s[0]) {
        1 + leading(s.drop_first())
    } else {
        0
    }
}

/// The number of white-space characters at the end of `s`.
pub open spec fn trailing(s: Seq<char>) -> nat
    decreases s.len(),
{
    if s.len() > 0 && is_space(s.last()) {
        1 + trailing(s.drop_last())
    } else {
        0
    }
}

/// `s` without its leading white space.
pub open spec fn trimmed_start(s: Seq<char>) -> Seq<char> {
    s.skip(leading(s) as int)
}

/// `s` without its leading and trailing white space.
pub open spec fn trimmed(s: Seq<char>) -> Seq<char> {
    let t = trimmed_start(s);
    t.take(t.len() - trailing(t))
}

/// The index of the first occurrence of `a` or `b` in `s`, or the length of
/// `s` where neither occurs.
pub open spec fn position2(s: Seq<char>, a: char, b: char) -> int
    decreases s.len(),
{
    if s.len() == 0 || s[0] == a || s[0] == b {
        0
    } else {
        1 + position2(s.drop_first(), a, b)
    }
}

/// The index of the first white space or `c` in `s`, or the length of `s`
/// where there is neither.
pub open spec fn word_end(s: Seq<char>, c: char) -> int
    decreases s.len(),
{
    if s.len() == 0 || is_space(s[0]) || s[0] == c {
        0
    } else {
        1 + word_end(s.drop_first(), c)
    }
}

/// The index of the first occurrence of `c` in `s`, or the length of `s`
/// where it does not occur.
pub open spec fn position(s: Seq<char>, c: char) -> int {
    position2(s, c, c)
}

/// The part of `s` before the first `c`; all of `s` where `c` does not occur.
pub open spec fn before(s: Seq<char>, c: char) -> Seq<char> {
    s.take(position(s, c))
}

/// The pieces of `s` between the occurrences of `c`. There is always at
/// least one piece; two adjacent separators hold an empty piece.
pub open spec fn split(s: Seq<char>, c: char) -> Seq<Seq<char>>
    decreases s.len(),
{
    if s.len() == 0 {
        seq![Seq::<char>::empty()]
    } else {
        let front = split(s.drop_last(), c);
        if s.last() == c {
            front.push(Seq::<char>::empty())
        } else {
            front.drop_last().push(front.last().push(s.last()))
        }
    }
}

/// `s` with every occurrence of `from` replaced by `to`, scanning from the
/// left and never looking again at what was replaced. An empty `from`
/// matches nowhere.
pub open spec fn replaced(s: Seq<char>, from: Seq<char>, to: Seq<char>) -> Seq<char>
    decreases s.len(),
{
    if from.len() == 0 || s.len() < from.len() {
        s
    } else if from.is_prefix_of(s) {
        to + replaced(s.skip(from.len() as int), from, to)
    } else {
        seq![s[0]] + replaced(s.skip(1), from, to)
    }
}

/// `s` with every occurrence of `c` taken out.
pub open spec fn without(s: Seq<char>, c: char) -> Seq<char>
    decreases s.len(),
{
    if s.len() == 0 {
        s
    } else if s[0] == c {
        without(s.drop_first(), c)
    } else {
        seq![s[0]] + without(s.drop_first(), c)
    }
}

/// The text of one digit: `0` to `9`, then `a` to `f`.
pub open spec fn digit(d: nat) -> Seq<char> {
    if d == 0 {
        "0"@
    } else if d == 1 {
        "1"@
    } else if d == 2 {
        "2"@
    } else if d == 3 {
        "3"@
    } else if d == 4 {
        "4"@
    } else if d == 5 {
        "5"@
    } else if d == 6 {
        "6"@
    } else if d == 7 {
        "7"@
    } else if d == 8 {
        "8"@
    } else if d == 9 {
        "9"@
    } else if d == 10 {
        "a"@
    } else if d == 11 {
        "b"@
    } else if d == 12 {
        "c"@
    } else if d == 13 {
        "d"@
    } else if d == 14 {
        "e"@
    } else {
        "f"@
    }
}

/// `n` in decimal notation, without leading zeros.
pub open spec fn decimal(n: nat) -> Seq<char>
    decreases n,
{
    if n < 10 {
        digit(n)
    } else {
        decimal(n / 10) + digit(n % 10)
    }
}

/// One less than `width`, and 0 for 0.
pub open spec fn narrower(width: nat) -> nat {
    if width > 0 {
        (width - 1) as nat
    } else {
        0
    }
}

/// `n` in hexadecimal notation, in lower case, with zeros in front up to
/// `width` digits.
pub open spec fn hex_text(n: nat, width: nat) -> Seq<char>
    decreases n, width,
{
    if n < 16 && width <= 1 {
        digit(n)
    } else {
        hex_text(n / 16, narrower(width)) + digit(n % 16)
    }
}

/// `n` in binary notation, with zeros in front up to `width` digits.
pub open spec fn binary_text(n: nat, width: nat) -> Seq<char>
    decreases n, width,
{
    if n < 2 && width <= 1 {
        digit(n)
    } else {
        binary_text(n / 2, narrower(width)) + digit(n % 2)
    }
}

/// The texts that a sequence of strings holds.
pub open spec fn texts(v: Seq<String>) -> Seq<Seq<char>> {
    v.map_values(|s: String| s@)
}

/// `leading(s)` is the first index that holds no white space.
pub proof fn lemma_leading(s: Seq<char>, k: int)
    requires
        0 <= k <= s.len(),
        forall|j: int| 0 <= j < k ==> is_space(#[trigger] s[j]),
        k == s.len() || !is_space(s[k]),
    ensures
        leading(s) == k,
    decreases k,
{
    if k > 0 {
        let rest = s.drop_first();
        assert forall|j: int| 0 <= j < k - 1 implies is_space(#[trigger] rest[j]) by {
            assert(rest[j] == s[j + 1]);
        }
        lemma_leading(rest, k - 1);
    }
}

/// `trailing(s)` counts back to the last index that holds no white space.
pub proof fn lemma_trailing(s: Seq<char>, k: int)
    requires
        0 <= k <= s.len(),
        forall|j: int| s.len() - k <= j < s.len() ==> is_space(#[trigger] s[j]),
        k == s.len() || !is_space(s[s.len() - k - 1]),
    ensures
        trailing(s) == k,
    decreases k,
{
    if k > 0 {
        let rest = s.drop_last();
        assert forall|j: int| rest.len() - (k - 1) <= j < rest.len() implies is_space(
            #[trigger] rest[j],
        ) by {
            assert(rest[j] == s[j]);
        }
        lemma_trailing(rest, k - 1);
    }
}

/// `position2(s, a, b)` is the first index that holds `a` or `b`.
pub proof fn lemma_position2(s: Seq<char>, a: char, b: char, k: int)
    requires
        0 <= k <= s.len(),
        forall|j: int| 0 <= j < k ==> #[trigger] s[j] != a && s[j] != b,
        k == s.len() || s[k] == a || s[k] == b,
    ensures
        position2(s, a, b) == k,
    decreases k,
{
    if k > 0 {
        let rest = s.drop_first();
        assert forall|j: int| 0 <= j < k - 1 implies #[trigger] rest[j] != a && rest[j] != b by {
            assert(rest[j] == s[j + 1]);
        }
        lemma_position2(rest, a, b, k - 1);
    }
}

/// `word_end(s, c)` is the first index that holds white space or `c`.
pub proof fn lemma_word_end(s: Seq<char>, c: char, k: int)
    requires
        0 <= k <= s.len(),
        forall|j: int| 0 <= j < k ==> !is_space(#[trigger] s[j]) && s[j] != c,
        k == s.len() || is_space(s[k]) || s[k] == c,
    ensures
        word_end(s, c) == k,
    decreases k,
{
    if k > 0 {
        let rest = s.drop_first();
        assert forall|j: int| 0 <= j < k - 1 implies !is_space(#[trigger] rest[j]) && rest[j]
            != c by {
            assert(rest[j] == s[j + 1]);
        }
        lemma_word_end(rest, c, k - 1);
    }
}

/// Tells whether `c` is white space.
pub fn space(c: char) -> (r: bool)
    ensures
        r == is_space(c),
{
    let n: u32 = c as u32;
    (0x09 <= n && n <= 0x0D) || n == 0x20 || n == 0x85 || n == 0xA0 || n == 0x1680 || (0x2000 <= n
        && n <= 0x200A) || n == 0x2028 || n == 0x2029 || n == 0x202F || n == 0x205F || n == 0x3000
}

/// The characters of `s`, one by one.
pub fn chars_of(s: &str) -> (v: Vec<char>)
    ensures
        v@ == s@,
{
    let mut v: Vec<char> = Vec::new();
    for c in it: s.chars()
        invariant
            v@ == it.seq().take(it.index()),
            it.seq() == s@,
    {
        v.push(c);
    }
    v
}

/// Tells whether two texts hold the same characters.
pub fn same(a: &str, b: &str) -> (r: bool)
    ensures
        r == (a@ == b@),
{
    let x = chars_of(a);
    let y = chars_of(b);
    if x.len() != y.len() {
        return false;
    }
    let n = x.len();
    let mut i: usize = 0;
    while i < n
        invariant
            i <= n,
            n == x.len(),
            n == y.len(),
            x@ == a@,
            y@ == b@,
            forall|j: int| 0 <= j < i ==> x@[j] == y@[j],
        decreases n - i,
    {
        if x[i] != y[i] {
            assert(a@[i as int] != b@[i as int]);
            return false;
        }
        i += 1;
    }
    assert(x@ =~= y@);
    true
}

/// Cuts the white space off both ends of `s`.
pub fn trim<'a>(s: &'a str) -> (r: &'a str)
    ensures
        r@ == trimmed(s@),
{
    let v = chars_of(s);
    let n = v.len();
    let mut i: usize = 0;
    while i < n && space(v[i])
        invariant
            i <= n,
            n == v.len(),
            forall|j: int| 0 <= j < i ==> is_space(#[trigger] v@[j]),
        decreases n - i,
    {
        i += 1;
    }
    let mut k: usize = n;
    while k > i && space(v[k - 1])
        invariant
            i <= k <= n,
            n == v.len(),
            forall|j: int| k <= j < n ==> is_space(#[trigger] v@[j]),
        decreases k,
    {
        k -= 1;
    }
    proof {
        lemma_leading(v@, i as int);
        let t = v@.skip(i as int);
        assert forall|j: int| t.len() - (n - k) <= j < t.len() implies is_space(#[trigger] t[j]) by {
            assert(t[j] == v@[j + i]);
        }
        lemma_trailing(t, (n - k) as int);
        assert(t.take(t.len() - (n - k)) =~= v@.subrange(i as int, k as int));
    }
    s.substring_char(i, k)
}

/// Finds the first `a` or `b` in `v`.
pub fn find_either(v: &Vec<char>, a: char, b: char) -> (k: usize)
    ensures
        k == position2(v@, a, b),
        k <= v.len(),
{
    let n = v.len();
    let mut i: usize = 0;
    while i < n && v[i] != a && v[i] != b
        invariant
            i <= n,
            n == v.len(),
            forall|j: int| 0 <= j < i ==> #[trigger] v@[j] != a && v@[j] != b,
        decreases n - i,
    {
        i += 1;
    }
    proof {
        lemma_position2(v@, a, b, i as int);
    }
    i
}

/// Finds the first white space or `c` in `v`.
pub fn find_word_end(v: &Vec<char>, c: char) -> (k: usize)
    ensures
        k == word_end(v@, c),
        k <= v.len(),
{
    let n = v.len();
    let mut i: usize = 0;
    while i < n && !space(v[i]) && v[i] != c
        invariant
            i <= n,
            n == v.len(),
            forall|j: int| 0 <= j < i ==> !is_space(#[trigger] v@[j]) && v@[j] != c,
        decreases n - i,
    {
        i += 1;
    }
    proof {
        lemma_word_end(v@, c, i as int);
    }
    i
}

/// Finds the first `c` in `v`.
pub fn find(v: &Vec<char>, c: char) -> (k: usize)
    ensures
        k == position(v@, c),
        k <= v.len(),
{
    find_either(v, c, c)
}

/// Splits `s` at every `c`.
pub fn split_on(s: &str, c: char) -> (r: Vec<String>)
    ensures
        texts(r@) == split(s@, c),
        r.len() >= 1,
{
    let v = chars_of(s);
    let n = v.len();
    let mut r: Vec<String> = Vec::new();
    let mut start: usize = 0;
    let mut i: usize = 0;
    assert(v@.take(0) =~= Seq::<char>::empty());
    assert(texts(r@).push(v@.subrange(0, 0)) =~= seq![Seq::<char>::empty()]);
    while i < n
        invariant
            start <= i <= n,
            n == v.len(),
            v@ == s@,
            texts(r@).push(v@.subrange(start as int, i as int)) == split(v@.take(i as int), c),
        decreases n - i,
    {
        proof {
            let cur = v@.take(i + 1);
            assert(cur.drop_last() =~= v@.take(i as int));
            assert(cur.last() == v@[i as int]);
        }
        if v[i] == c {
            let piece = s.substring_char(start, i);
            let ghost before = texts(r@);
            r.push(String::from_str(piece));
            proof {
                assert(texts(r@) =~= before.push(v@.subrange(start as int, i as int)));
                assert(v@.subrange(i + 1, i + 1) =~= Seq::<char>::empty());
            }
            start = i + 1;
        } else {
            proof {
                let front = split(v@.take(i as int), c);
                assert(front.drop_last() =~= texts(r@));
                assert(v@.subrange(start as int, i as int).push(v@[i as int]) =~= v@.subrange(
                    start as int,
                    i + 1,
                ));
            }
        }
        i += 1;
    }
    let piece = s.substring_char(start, n);
    let ghost before = texts(r@);
    r.push(String::from_str(piece));
    proof {
        assert(texts(r@) =~= before.push(v@.subrange(start as int, n as int)));
        assert(v@.take(n as int) =~= v@);
    }
    r
}

/// Whether `p` stands in `v` at index `i`.
pub open spec fn occurs_at(v: Seq<char>, i: int, p: Seq<char>) -> bool {
    0 <= i && i + p.len() <= v.len() && v.subrange(i, i + p.len()) == p
}

/// Tells whether `p` stands in `v` at index `i`.
pub fn matches_at(v: &Vec<char>, i: usize, p: &Vec<char>) -> (r: bool)
    requires
        i <= v.len(),
    ensures
        r == occurs_at(v@, i as int, p@),
{
    let m = p.len();
    if m > v.len() - i {
        return false;
    }
    let mut k: usize = 0;
    while k < m
        invariant
            k <= m,
            m == p.len(),
            i + m <= v.len(),
            forall|j: int| 0 <= j < k ==> v@[i + j] == p@[j],
        decreases m - k,
    {
        if v[i + k] != p[k] {
            proof {
                assert(v@.subrange(i as int, i + m)[k as int] == v@[i + k]);
            }
            return false;
        }
        k += 1;
    }
    assert(v@.subrange(i as int, i + m) =~= p@);
    true
}

/// Replaces every occurrence of `from` in `s` by `to`.
pub fn replace_all(s: &str, from: &str, to: &str) -> (r: String)
    ensures
        r@ == replaced(s@, from@, to@),
{
    let v = chars_of(s);
    let p = chars_of(from);
    let n = v.len();
    let m = p.len();
    if m == 0 {
        return String::from_str(s);
    }
    let mut r = String::new();
    let mut start: usize = 0;
    let mut i: usize = 0;
    assert(v@.skip(0) =~= v@);
    assert(r@ + v@.subrange(0, 0) + replaced(v@.skip(0), p@, to@) =~= replaced(v@, p@, to@));
    while i < n
        invariant
            start <= i <= n,
            n == v.len(),
            m == p.len(),
            m > 0,
            v@ == s@,
            p@ == from@,
            r@ + v@.subrange(start as int, i as int) + replaced(v@.skip(i as int), p@, to@)
                == replaced(v@, p@, to@),
        decreases n - i,
    {
        let ghost rest = v@.skip(i as int);
        if matches_at(&v, i, &p) {
            let ghost old_r = r@;
            let ghost run = v@.subrange(start as int, i as int);
            let ghost next = replaced(v@.skip(i + m), p@, to@);
            proof {
                assert(rest.subrange(0, m as int) =~= v@.subrange(i as int, i + m));
                assert(p@.is_prefix_of(rest));
                assert(rest.skip(m as int) =~= v@.skip(i + m));
                assert(replaced(rest, p@, to@) == to@ + next);
            }
            r.append(s.substring_char(start, i));
            r.append(to);
            i += m;
            start = i;
            proof {
                assert(v@.subrange(start as int, i as int) =~= Seq::<char>::empty());
                assert(r@ + v@.subrange(start as int, i as int) + next =~= old_r + run + (to@
                    + next));
            }
        } else {
            proof {
                let run = v@.subrange(start as int, i as int);
                let longer = v@.subrange(start as int, i + 1);
                let after = v@.skip(i + 1);
                assert(rest.skip(1) =~= after);
                if rest.len() >= m {
                    assert(rest.subrange(0, m as int) =~= v@.subrange(i as int, i + m));
                    assert(!p@.is_prefix_of(rest));
                    assert(replaced(rest, p@, to@) == seq![rest[0]] + replaced(after, p@, to@));
                    assert(r@ + run + (seq![rest[0]] + replaced(after, p@, to@)) =~= r@ + longer
                        + replaced(after, p@, to@));
                } else {
                    assert(replaced(rest, p@, to@) == rest);
                    assert(replaced(after, p@, to@) == after);
                    assert(r@ + run + rest =~= r@ + longer + after);
                }
            }
            i += 1;
        }
    }
    proof {
        assert(v@.skip(n as int) =~= Seq::<char>::empty());
        assert(r@ + v@.subrange(start as int, n as int) + Seq::<char>::empty() =~= r@ + v@.subrange(
            start as int,
            n as int,
        ));
    }
    r.append(s.substring_char(start, n));
    r
}

/// The text of one digit.
pub fn digit_text(d: usize) -> (r: &'static str)
    requires
        d < 16,
    ensures
        r@ == digit(d as nat),
{
    if d == 0 {
        "0"
    } else if d == 1 {
        "1"
    } else if d == 2 {
        "2"
    } else if d == 3 {
        "3"
    } else if d == 4 {
        "4"
    } else if d == 5 {
        "5"
    } else if d == 6 {
        "6"
    } else if d == 7 {
        "7"
    } else if d == 8 {
        "8"
    } else if d == 9 {
        "9"
    } else if d == 10 {
        "a"
    } else if d == 11 {
        "b"
    } else if d == 12 {
        "c"
    } else if d == 13 {
        "d"
    } else if d == 14 {
        "e"
    } else {
        "f"
    }
}

/// Writes `n` in decimal notation.
pub fn decimal_text(n: usize) -> (r: String)
    ensures
        r@ == decimal(n as nat),
    decreases n,
{
    if n < 10 {
        String::from_str(digit_text(n))
    } else {
        let mut r = decimal_text(n / 10);
        r.append(digit_text(n % 10));
        r
    }
}

/// Copies a list of texts.
pub fn copy_texts(v: &Vec<String>) -> (r: Vec<String>)
    ensures
        texts(r@) == texts(v@),
{
    let mut r: Vec<String> = Vec::new();
    let mut i: usize = 0;
    while i < v.len()
        invariant
            i <= v.len(),
            r.len() == i,
            forall|j: int| 0 <= j < i ==> r@[j]@ == v@[j]@,
        decreases v.len() - i,
    {
        r.push(String::from_str(v[i].as_str()));
        i += 1;
    }
    assert(texts(r@) =~= texts(v@));
    r
}

/// Whether `s` starts with `p`.
pub open spec fn starts_with(s: Seq<char>, p: Seq<char>) -> bool {
    occurs_at(s, 0, p)
}

/// Tells whether `s` starts with `p`.
pub fn begins(s: &str, p: &str) -> (r: bool)
    ensures
        r == starts_with(s@, p@),
{
    let v = chars_of(s);
    let w = chars_of(p);
    matches_at(&v, 0, &w)
}

/// The lines of `lines` that hold more than white space.
pub open spec fn non_blank(lines: Seq<Seq<char>>) -> Seq<Seq<char>>
    decreases lines.len(),
{
    if lines.len() == 0 {
        lines
    } else if trimmed(lines.last()).len() == 0 {
        non_blank(lines.drop_last())
    } else {
        non_blank(lines.drop_last()).push(lines.last())
    }
}

/// The indices of the lines of `lines` that hold more than white space.
pub open spec fn picked(lines: Seq<Seq<char>>) -> Seq<int>
    decreases lines.len(),
{
    if lines.len() == 0 {
        Seq::empty()
    } else if trimmed(lines.last()).len() == 0 {
        picked(lines.drop_last())
    } else {
        picked(lines.drop_last()).push(lines.len() - 1)
    }
}

/// The index of the first of `lines`, from the `i`-th on, that is exactly
/// `mark`, or the number of lines where none is.
pub open spec fn line_index(lines: Seq<Seq<char>>, mark: Seq<char>, i: int) -> int
    decreases lines.len() - i,
{
    if i >= lines.len() {
        lines.len() as int
    } else if i >= 0 && lines[i] == mark {
        i
    } else {
        line_index(lines, mark, i + 1)
    }
}

/// `line_index` is the first index from `i` on that holds `mark`.
pub proof fn lemma_line_index(lines: Seq<Seq<char>>, mark: Seq<char>, i: int, k: int)
    requires
        0 <= i <= k <= lines.len(),
        forall|j: int| i <= j < k ==> #[trigger] lines[j] != mark,
        k == lines.len() || lines[k] == mark,
    ensures
        line_index(lines, mark, i) == k,
    decreases k - i,
{
    if i < k {
        lemma_line_index(lines, mark, i + 1, k);
    }
}

/// Writes `n` in hexadecimal notation, at least `width` digits wide.
pub fn hex(n: usize, width: usize) -> (r: String)
    ensures
        r@ == hex_text(n as nat, width as nat),
    decreases n, width,
{
    if n < 16 && width <= 1 {
        String::from_str(digit_text(n))
    } else {
        let mut r = hex(
            n / 16,
            if width > 0 {
                width - 1
            } else {
                0
            },
        );
        r.append(digit_text(n % 16));
        r
    }
}

/// Writes `n` in binary notation, at least `width` digits wide.
pub fn binary(n: usize, width: usize) -> (r: String)
    ensures
        r@ == binary_text(n as nat, width as nat),
    decreases n, width,
{
    if n < 2 && width <= 1 {
        String::from_str(digit_text(n))
    } else {
        let mut r = binary(
            n / 2,
            if width > 0 {
                width - 1
            } else {
                0
            },
        );
        r.append(digit_text(n % 2));
        r
    }
}

} // verus!
