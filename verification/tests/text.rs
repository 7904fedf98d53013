use pg_replicate::text::{
    decimal_text, parse_bool, parse_i32, parse_u16, parse_u32, same_text, same_text_but_for_case,
};

const NUMBERS: [&str; 24] = [
    "", "+", "-", "0", "-0", "+0", "00", "7", "+7", "-7", "007", " 7", "7 ", "7_0", "0x7", "++7",
    "+-7", "65535", "65536", "2147483647", "2147483648", "-2147483648", "-2147483649", "\u{0667}",
];

#[test]
fn numbers_are_read_as_the_standard_library_reads_them() {
    for text in NUMBERS {
        assert_eq!(parse_u16(text), text.parse::<u16>().ok(), "{text}");
        assert_eq!(parse_u32(text), text.parse::<u32>().ok(), "{text}");
        assert_eq!(parse_i32(text), text.parse::<i32>().ok(), "{text}");
    }
    for text in ["4294967295", "4294967296", "99999999999999999999999999", "18446744073709551616"] {
        assert_eq!(parse_u32(text), text.parse::<u32>().ok(), "{text}");
        assert_eq!(parse_i32(text), text.parse::<i32>().ok(), "{text}");
    }
}

#[test]
fn exact_numbers() {
    assert_eq!(parse_u32("4294967295"), Some(4294967295));
    assert_eq!(parse_u32("4294967296"), None);
    assert_eq!(parse_u32("+42"), Some(42));
    assert_eq!(parse_i32("-2147483648"), Some(i32::MIN));
    assert_eq!(parse_i32("-1"), Some(-1));
    assert_eq!(parse_u16("5432"), Some(5432));
    assert_eq!(parse_u16("99999999999999999999x"), None);
}

#[test]
fn a_written_number_is_read_back() {
    for value in [0, 1, 9, 10, 11, 99, 100, 16384, 4294967295] {
        assert_eq!(decimal_text(value), format!("{value}"));
        assert_eq!(parse_u32(&decimal_text(value)), Some(value));
    }
}

#[test]
fn booleans() {
    for text in ["true", "false", "", "True", "1", "true "] {
        assert_eq!(parse_bool(text), text.parse::<bool>().ok(), "{text}");
    }
    assert_eq!(parse_bool("true"), Some(true));
    assert_eq!(parse_bool("false"), Some(false));
}

#[test]
fn comparisons() {
    assert!(same_text("attname", "attname"));
    assert!(!same_text("attname", "attnam"));
    let texts = ["", "a", "A", "Attname", "ATTNAME", "\u{e9}", "\u{c9}", "a\u{212a}", "aK", "[", "{", "@", "`"];
    for a in texts {
        for b in texts {
            assert_eq!(same_text_but_for_case(a, b), a.eq_ignore_ascii_case(b), "{a} {b}");
        }
    }
    assert!(same_text_but_for_case("AttName", "attname"));
}
