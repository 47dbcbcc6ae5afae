use vm8::text::{
    begins, binary, chars_of, decimal_text, find, find_either, hex, replace_all, same, space,
    split_on, trim,
};

#[test]
fn white_space() {
    for c in [' ', '\t', '\n', '\r', '\u{0b}', '\u{0c}', '\u{85}', '\u{a0}', '\u{2003}', '\u{3000}'] {
        assert!(space(c));
        assert!(c.is_whitespace());
    }
    for c in ['a', '0', '#', '\u{200b}', '\0'] {
        assert!(!space(c));
    }
}

#[test]
fn white_space_everywhere_as_the_standard_says() {
    for n in 0..0x11_0000u32 {
        if let Some(c) = char::from_u32(n) {
            assert_eq!(space(c), c.is_whitespace());
        }
    }
}

#[test]
fn trimming() {
    assert_eq!(trim("  a b \t\n"), "a b");
    assert_eq!(trim("a"), "a");
    assert_eq!(trim(""), "");
    assert_eq!(trim(" \t "), "");
    assert_eq!(trim("\u{a0}x\u{2003}"), "x");
}

#[test]
fn searching() {
    assert_eq!(find(&chars_of("a;b;c"), ';'), 1);
    assert_eq!(find(&chars_of("abc"), ';'), 3);
    assert_eq!(find(&chars_of(""), ';'), 0);
    assert_eq!(find_either(&chars_of("ab-c+d"), '+', '-'), 2);
    assert_eq!(find_either(&chars_of("\u{e9}+"), '+', '-'), 1);
}

#[test]
fn splitting() {
    assert_eq!(split_on("a,b,c", ','), vec!["a", "b", "c"]);
    assert_eq!(split_on("", ','), vec![""]);
    assert_eq!(split_on(",", ','), vec!["", ""]);
    assert_eq!(split_on("a,,b,", ','), vec!["a", "", "b", ""]);
    assert_eq!(split_on("no separator", ','), vec!["no separator"]);
}

#[test]
fn replacing() {
    assert_eq!(replace_all("lda $1", "$1", "0x10"), "lda 0x10");
    assert_eq!(replace_all("$1$1 $1", "$1", "ab"), "abab ab");
    assert_eq!(replace_all("aaa", "aa", "b"), "ba");
    assert_eq!(replace_all("abc", "abcd", "x"), "abc");
    assert_eq!(replace_all("abc", "", "x"), "abc");
    assert_eq!(replace_all("a$1", "$1", "$1$1"), "a$1$1");
    assert_eq!(replace_all("", "a", "b"), "");
}

#[test]
fn comparing() {
    assert!(same("org", "org"));
    assert!(!same("org", "orgs"));
    assert!(!same("org", "orb"));
    assert!(same("", ""));
    assert!(begins("#MACR name", "#MACR"));
    assert!(begins("#MACR", "#MACR"));
    assert!(!begins("#MAC", "#MACR"));
    assert!(begins("anything", ""));
}

#[test]
fn numbers_written_out() {
    assert_eq!(decimal_text(0), "0");
    assert_eq!(decimal_text(9), "9");
    assert_eq!(decimal_text(10), "10");
    assert_eq!(decimal_text(65536), "65536");
    assert_eq!(hex(0, 2), "00");
    assert_eq!(hex(0xab, 2), "ab");
    assert_eq!(hex(0xabc, 2), "abc");
    assert_eq!(hex(0x1f, 4), "001f");
    assert_eq!(hex(5, 0), "5");
    assert_eq!(binary(0b101, 8), "00000101");
    assert_eq!(binary(255, 8), "11111111");
    assert_eq!(binary(256, 8), "100000000");
}
