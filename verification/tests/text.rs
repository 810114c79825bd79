use screencast::text::{is_whitespace, parse_u64, same_text, to_decimal};

#[test]
fn whitespace_is_unicode_white_space() {
    for code in 0..=0x10FFFFu32 {
        if let Some(c) = char::from_u32(code) {
            assert_eq!(is_whitespace(c), c.is_whitespace(), "U+{:04X}", code);
        }
    }
}

#[test]
fn reads_unsigned_numbers() {
    assert_eq!(parse_u64("0"), Some(0));
    assert_eq!(parse_u64("10"), Some(10));
    assert_eq!(parse_u64("+10"), Some(10));
    assert_eq!(parse_u64("0007"), Some(7));
    assert_eq!(parse_u64("18446744073709551615"), Some(u64::MAX));
    assert_eq!(parse_u64("+018446744073709551615"), Some(u64::MAX));
}

#[test]
fn refuses_what_is_no_unsigned_number() {
    for text in [
        "",
        "+",
        "-",
        "-0",
        "-5",
        "++5",
        "5+",
        " 5",
        "5 ",
        "1_000",
        "0x10",
        "1.0",
        "1e3",
        "ten",
        "\u{ff11}",
        "\u{663}",
        "18446744073709551616",
        "99999999999999999999999999",
        "18446744073709551615x",
    ] {
        assert_eq!(parse_u64(text), None, "text {:?}", text);
    }
}

#[test]
fn reads_numbers_like_the_standard_library() {
    let alphabet = ['+', '-', '0', '1', '9', ' ', 'a', '_'];
    let mut texts = vec![String::new()];
    let mut from = 0;
    for _ in 0..4 {
        let upto = texts.len();
        for i in from..upto {
            for c in alphabet {
                let mut longer = texts[i].clone();
                longer.push(c);
                texts.push(longer);
            }
        }
        from = upto;
    }
    for text in &texts {
        assert_eq!(parse_u64(text), text.parse::<u64>().ok(), "text {:?}", text);
    }
    for n in [0u64, 1, 9, 10, 99, 100, 4294967295, 4294967296, u64::MAX - 1, u64::MAX] {
        assert_eq!(parse_u64(&n.to_string()), Some(n));
    }
    for n in [u64::MAX as u128 + 1, u64::MAX as u128 * 10, u128::MAX] {
        assert_eq!(parse_u64(&n.to_string()), None);
    }
}

#[test]
fn writes_numbers_like_the_standard_library() {
    let mut n: u64 = 0;
    for step in 0..200u64 {
        assert_eq!(to_decimal(n), n.to_string());
        n = n.wrapping_mul(31).wrapping_add(step * step + 7);
    }
    for n in [0u64, 5, 9, 10, 11, 99, 100, 101, 999, 1000, 65535, u64::MAX] {
        assert_eq!(to_decimal(n), n.to_string());
    }
    assert_eq!(to_decimal(0), "0");
    assert_eq!(to_decimal(1234567890), "1234567890");
}

#[test]
fn compares_texts_by_their_characters() {
    assert!(same_text("", ""));
    assert!(same_text("frame", "frame"));
    assert!(same_text("\u{e9}t\u{e9}", "\u{e9}t\u{e9}"));
    assert!(!same_text("frame", "frames"));
    assert!(!same_text("frame", "Frame"));
    assert!(!same_text("frame", ""));
    assert!(!same_text("e\u{301}", "\u{e9}"));
}
