use vm8::numeral::Numeral;

fn digit_value(c: char) -> i128 {
    match c {
        '0'..='9' => c as i128 - '0' as i128,
        'a'..='z' => c as i128 - 'a' as i128 + 10,
        'A'..='Z' => c as i128 - 'A' as i128 + 10,
        _ => 36,
    }
}

fn integer(text: &str, radix: u32, signed: bool) -> Option<i128> {
    let chars: Vec<char> = text.chars().collect();
    let has_sign = !chars.is_empty() && (chars[0] == '+' || (signed && chars[0] == '-'));
    let digits = if has_sign { &chars[1..] } else { &chars[..] };
    if digits.is_empty() || digits.iter().any(|c| digit_value(*c) >= radix as i128) {
        return None;
    }
    let mut value: i128 = 0;
    for c in digits {
        value = (value * radix as i128 + digit_value(*c)).min(1 << 100);
    }
    if has_sign && chars[0] == '-' {
        Some(-value)
    } else {
        Some(value)
    }
}

fn within(v: Option<i128>, low: i128, high: i128) -> Option<i128> {
    v.filter(|v| low <= *v && *v <= high)
}

fn check(text: &str) {
    for radix in [2, 8, 10, 16, 36] {
        assert_eq!(
            <u8 as Numeral>::read(text, radix).map(|v| v as i128),
            within(integer(text, radix, false), 0, 255),
            "u8 {:?} in {}",
            text,
            radix
        );
        assert_eq!(
            <u16 as Numeral>::read(text, radix).map(|v| v as i128),
            within(integer(text, radix, false), 0, 65535),
            "u16 {:?} in {}",
            text,
            radix
        );
        assert_eq!(
            <i32 as Numeral>::read(text, radix).map(|v| v as i128),
            within(integer(text, radix, true), i32::MIN as i128, i32::MAX as i128),
            "i32 {:?} in {}",
            text,
            radix
        );
    }
}

#[test]
fn readings_of_every_short_text() {
    let alphabet = ['+', '-', '0', '1', '7', '9', 'a', 'F', 'z', '_', ' ', '\u{e9}'];
    let mut texts = vec![String::new()];
    let mut from = 0;
    for _ in 0..4 {
        let upto = texts.len();
        for i in from..upto {
            for c in alphabet {
                let mut longer = texts[i].clone();
                longer.push(c);
                texts.push(longer);
            }
        }
        from = upto;
    }
    assert_eq!(texts.len(), 1 + 12 + 144 + 1728 + 20736);
    for text in &texts {
        check(text);
    }
}

#[test]
fn readings_at_the_limits() {
    for text in [
        "255", "256", "+255", "-0", "0255", "000000000000000000000000000000255", "65535", "65536",
        "2147483647", "2147483648", "-2147483648", "-2147483649", "+2147483647", "7fffffff",
        "80000000", "-80000000", "-80000001", "ff", "FF", "fF", "100", "zz", "ZZ", "1z141z3",
        "11111111", "100000000", "1111111111111111", "10000000000000000",
        "99999999999999999999999999999999999999", "-99999999999999999999999999999999999999",
        " 1", "1 ", "1_0", "\t1", "1\n", "\u{ff11}", "\u{663}", "0x10", "1e3", "1.0", "++1", "+-1",
        "-+1", "--1", "1-", "1+",
    ] {
        check(text);
    }
}

#[test]
fn readings_with_a_value() {
    assert_eq!(<u8 as Numeral>::read("101", 2), Some(5));
    assert_eq!(<u8 as Numeral>::read("+7f", 16), Some(127));
    assert_eq!(<u8 as Numeral>::read("-1", 10), None);
    assert_eq!(<u8 as Numeral>::read("", 10), None);
    assert_eq!(<u8 as Numeral>::read("+", 10), None);
    assert_eq!(<u16 as Numeral>::read("FfFf", 16), Some(65535));
    assert_eq!(<i32 as Numeral>::read("-z", 36), Some(-35));
    assert_eq!(<i32 as Numeral>::read("-", 10), None);
    assert_eq!(<i32 as Numeral>::read("12", 2), None);
}
