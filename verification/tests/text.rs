use coreshift_lowlevel::text::{
    is_whitespace, parse_i32, parse_u32, parse_u32_text, push_decimal, to_text,
};

#[test]
fn whitespace_is_that_of_std() {
    for u in 0..=0x10_ffffu32 {
        if let Some(c) = char::from_u32(u) {
            assert_eq!(is_whitespace(c), c.is_whitespace(), "{:x}", u);
        }
    }
}

#[test]
fn numbers_parse_as_those_of_std() {
    let cases = [
        "", "0", "7", "007", "+7", "-7", "-0", "+", "-", "--1", "+-1", "1 ", " 1", "12a", "a",
        "2147483647", "2147483648", "-2147483648", "-2147483649", "4294967295", "4294967296",
        "99999999999999999999999", "1_000", "0x10", "\u{663}",
    ];
    for case in cases {
        assert_eq!(parse_u32(case.as_bytes()), case.parse::<u32>().ok(), "{case}");
        assert_eq!(parse_i32(case.as_bytes()), case.parse::<i32>().ok(), "{case}");
        assert_eq!(parse_u32_text(case), case.parse::<u32>().ok(), "{case}");
    }
}

#[test]
fn numbers_are_written_and_read_back() {
    for n in [0, 1, 9, 10, 99, 100, 12345, i32::MAX, -1, -10, i32::MIN] {
        let mut text = "n=".to_string();
        push_decimal(&mut text, n);
        assert_eq!(text, format!("n={n}"));
        assert_eq!(parse_i32(text[2..].as_bytes()), Some(n));
    }
}

#[test]
fn bytes_become_text() {
    assert_eq!(to_text("h\u{e9}llo".as_bytes()), "h\u{e9}llo");
    assert_eq!(to_text(&[0xff]), "\u{fffd}");
    assert_eq!(to_text(b""), "");
}
