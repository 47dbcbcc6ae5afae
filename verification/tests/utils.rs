use vm8::utils::{
    bytes_to_16, classify_literal, parse_int_literal, set_vec_value_at_index, strip_whitespace,
    u16_to_bytes, Command, Options,
};

#[test]
fn byte_conv_tests() {
    assert_eq!(u16_to_bytes(0b0000_1111_0000_0001), (0b0000_1111, 0b0000_0001));
    assert_eq!(bytes_to_16(0b0000_0011, 0b0011_0011), 0b0000_0011_0011_0011)
}

#[test]
fn int_parse() {
    assert_eq!(parse_int_literal("0d123"), Ok(123));
    assert_eq!(parse_int_literal("0x123"), Ok(0x123));
    assert_eq!(parse_int_literal::<i32>("0b123"), Err(String::from("binary literal 0b123 failed to parse")));
    assert_eq!(parse_int_literal("123"), Ok(123));
}

#[test]
fn byte_pairs_round_trip() {
    for value in [0u16, 1, 255, 256, 0x1234, 0xFFFF] {
        let (hi, lo) = u16_to_bytes(value);
        assert_eq!(bytes_to_16(hi, lo), value);
    }
    assert_eq!(u16_to_bytes(0xFFFF), (0xFF, 0xFF));
    assert_eq!(bytes_to_16(0xFF, 0x00), 0xFF00);
}

#[test]
fn literals_in_each_radix() {
    assert_eq!(parse_int_literal::<u8>("0b101"), Ok(5));
    assert_eq!(parse_int_literal::<u8>("0d99"), Ok(99));
    assert_eq!(parse_int_literal::<u8>("0xff"), Ok(255));
    assert_eq!(parse_int_literal::<u8>("0xFF"), Ok(255));
    assert_eq!(parse_int_literal::<u8>("7"), Ok(7));
    assert_eq!(parse_int_literal::<u16>("0xffff"), Ok(65535));
    assert_eq!(parse_int_literal::<u16>("65535"), Ok(65535));
    assert_eq!(parse_int_literal::<i32>("0x7fffffff"), Ok(i32::MAX));
}

#[test]
fn literals_that_fail() {
    assert_eq!(parse_int_literal::<u8>(""), Err(String::from("literal  too short")));
    assert_eq!(parse_int_literal::<u8>("ab"), Err(String::from("literal ab too short")));
    assert_eq!(parse_int_literal::<u8>("0x"), Err(String::from("literal 0x too short")));
    assert_eq!(parse_int_literal::<u8>("abc"), Err(String::from("unsupported radix ab in literal abc")));
    assert_eq!(parse_int_literal::<u8>("0o17"), Err(String::from("unsupported radix 0o in literal 0o17")));
    assert_eq!(
        parse_int_literal::<u8>("0xfg"),
        Err(String::from("hex literal 0xfg failed to parse"))
    );
    assert_eq!(
        parse_int_literal::<u8>("0d1a"),
        Err(String::from("decimal literal 0d1a failed to parse"))
    );
    assert_eq!(
        parse_int_literal::<u8>("0x100"),
        Err(String::from("hex literal 0x100 failed to parse"))
    );
    assert_eq!(
        parse_int_literal::<u16>("0x10000"),
        Err(String::from("hex literal 0x10000 failed to parse"))
    );
}

#[test]
fn every_failure_carries_the_literal() {
    for literal in ["", "z", "zz99", "0q12", "0b12", "0d1x", "0xgg", "70000"] {
        let message = parse_int_literal::<u16>(literal).unwrap_err();
        assert!(message.contains(literal), "{} not in {}", literal, message);
    }
    assert_eq!(
        parse_int_literal::<u16>("zz99"),
        Err(String::from("unsupported radix zz in literal zz99"))
    );
}

#[test]
fn literal_decided_from_its_readings() {
    assert_eq!(classify_literal("12", Some(12u8), None), Ok(12));
    assert_eq!(classify_literal("0x0c", None, Some(12u8)), Ok(12));
    assert_eq!(classify_literal("0x0c", Some(1u8), Some(12u8)), Ok(1));
    assert_eq!(
        classify_literal::<u8>("0b2", None, None),
        Err(String::from("binary literal 0b2 failed to parse"))
    );
    assert_eq!(classify_literal::<u8>("zz", None, None), Err(String::from("literal zz too short")));
    assert_eq!(
        classify_literal::<u8>("zzz", None, Some(3)),
        Err(String::from("unsupported radix zz in literal zzz"))
    );
}

#[test]
fn sparse_write_grows_with_defaults() {
    let mut v: Vec<u8> = vec![1, 2];
    set_vec_value_at_index(&mut v, 9, 5);
    assert_eq!(v, vec![1, 2, 0, 0, 0, 9]);
    set_vec_value_at_index(&mut v, 7, 0);
    assert_eq!(v, vec![7, 2, 0, 0, 0, 9]);
    set_vec_value_at_index(&mut v, 8, 6);
    assert_eq!(v, vec![7, 2, 0, 0, 0, 9, 8]);
    let mut words: Vec<String> = Vec::new();
    set_vec_value_at_index(&mut words, String::from("x"), 2);
    assert_eq!(words, vec![String::new(), String::new(), String::from("x")]);
}

#[test]
fn spaces_are_stripped() {
    assert_eq!(strip_whitespace(" a + 4 "), "a+4");
    assert_eq!(strip_whitespace("a\tb c"), "a\tbc");
    assert_eq!(strip_whitespace(""), "");
    assert_eq!(strip_whitespace("   "), "");
}

#[test]
fn default_options() {
    let o = Options::default();
    assert_eq!(o.command, Command::Run);
    assert_eq!(Command::default(), Command::Run);
    assert_eq!(o.path, "");
    assert_eq!(o.out_path, "");
    assert_eq!(o.debug_level, 0);
    assert_eq!(o.clock_period, 0);
}

#[test]
fn debug_levels() {
    let mut o = Options::default();
    for (level, valid, instructions) in
        [(-1, false, false), (0, true, false), (1, true, false), (2, true, true), (3, true, true), (4, false, false)]
    {
        o.debug_level = level;
        assert_eq!(o.is_valid(), valid);
        assert_eq!(o.prints_instructions(), instructions);
    }
    o.debug_level = 0;
    assert!(!o.readout_due(true, true));
    o.debug_level = 1;
    assert!(o.readout_due(true, false));
    assert!(o.readout_due(false, true));
    assert!(!o.readout_due(false, false));
    o.debug_level = 2;
    assert!(o.readout_due(true, false));
    assert!(!o.readout_due(false, false));
    o.debug_level = 3;
    assert!(o.readout_due(false, false));
}
