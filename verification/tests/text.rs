use cps_station::decimal::{format_signed, format_unsigned};
use cps_station::fixed::{short_line, TextOverflow};
use cps_station::scan::{chars_of, contains, is_white_space, trim};

#[test]
fn unsigned_numbers_in_decimal() {
    assert_eq!(format_unsigned(0), "0");
    assert_eq!(format_unsigned(9), "9");
    assert_eq!(format_unsigned(10), "10");
    assert_eq!(format_unsigned(1234567890), "1234567890");
    assert_eq!(format_unsigned(u64::MAX), "18446744073709551615");
}

#[test]
fn signed_numbers_in_decimal() {
    assert_eq!(format_signed(0), "0");
    assert_eq!(format_signed(-1), "-1");
    assert_eq!(format_signed(105), "105");
    assert_eq!(format_signed(i64::MIN), "-9223372036854775808");
    assert_eq!(format_signed(i64::MAX), "9223372036854775807");
}

#[test]
fn written_numbers_read_back() {
    let values: [i64; 6] = [0, 7, -7, 1000, -65536, 4294967295];
    for v in values {
        assert_eq!(format_signed(v).parse::<i64>(), Ok(v));
    }
}

#[test]
fn short_line_takes_up_to_its_capacity() {
    let line = short_line("Booting system...").unwrap();
    assert_eq!(line.as_str(), "Booting system...");
    let full = "12345678901234567890123456789012";
    assert_eq!(short_line(full).unwrap().as_str(), full);
    assert_eq!(
        short_line("123456789012345678901234567890123"),
        Err(TextOverflow)
    );
}

#[test]
fn short_line_counts_bytes() {
    assert_eq!(short_line("яяяяяяяяяяяяяяяя").unwrap().len(), 32);
    assert_eq!(short_line("яяяяяяяяяяяяяяяяя"), Err(TextOverflow));
}

#[test]
fn trim_takes_white_space_off_both_ends() {
    assert_eq!(trim("\r\n OK \r\n"), "OK");
    assert_eq!(trim("a b"), "a b");
    assert_eq!(trim(" \t\r\n"), "");
    assert_eq!(trim(""), "");
    assert_eq!(trim("\u{A0}я\u{3000}"), "я");
}

#[test]
fn trim_agrees_with_the_standard_library() {
    for s in ["", " ", "x", " x", "x ", "\u{85}x\u{2028}y\u{2029}", "\u{200B}x"] {
        assert_eq!(trim(s), s.trim());
    }
}

#[test]
fn contains_finds_text_anywhere() {
    assert!(contains("+CIPOPEN: 0,0", "0,0"));
    assert!(contains("abc", "abc"));
    assert!(contains("aab", "ab"));
    assert!(contains("", ""));
    assert!(!contains("", "a"));
    assert!(!contains("ab", "abc"));
    assert!(!contains("OERROK", "ERROR"));
    assert!(contains("ответ: да", "да"));
}

#[test]
fn chars_keep_their_order() {
    assert_eq!(chars_of("aяb"), vec!['a', 'я', 'b']);
}

#[test]
fn white_space_is_that_of_the_standard_library() {
    for code in 0..=0x10FFFFu32 {
        if let Some(c) = char::from_u32(code) {
            assert_eq!(is_white_space(c), c.is_whitespace());
        }
    }
}

#[test]
fn line_end_is_found_only_before_more_text() {
    assert!(contains(trim("a\r\nb\r\n"), "a\r"));
    assert!(!contains(trim("a\r\n\r\n"), "a\r"));
}
