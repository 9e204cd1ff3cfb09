//! Reading settings out of text.

use citrea_network::config::parse_bool_flag;
use citrea_network::text::{
    is_whitespace, parse_bool, parse_comma_list, parse_comma_list_nonempty, parse_uint, split, to_decimal, to_lower,
    trim, ParseUintError,
};

#[test]
fn white_space_is_that_of_unicode() {
    for c in '\0'..=char::MAX {
        assert_eq!(is_whitespace(c), c.is_whitespace(), "{c:?}");
        assert_eq!(to_lower(c), c.to_ascii_lowercase(), "{c:?}");
    }
}

#[test]
fn trimming_is_that_of_str() {
    for s in ["", " ", "a", " a", "a ", " \t a b\u{3000}\n", "\u{85}x\u{a0}", "\u{200b} y"] {
        assert_eq!(trim(s), s.trim());
    }
}

#[test]
fn splitting_is_that_of_str() {
    for s in ["", ",", "a", "a,b", ",a,,b,", "\u{e9},\u{4e2d}"] {
        let expected: Vec<&str> = s.split(',').collect();
        assert_eq!(split(s, ','), expected);
        assert_eq!(split(s, ',').join(","), s);
    }
}

#[test]
fn lists_are_trimmed() {
    assert_eq!(parse_comma_list(" a , b,,"), ["a", "b", "", ""]);
    assert_eq!(parse_comma_list(""), [""]);
    assert_eq!(parse_comma_list_nonempty(" a , b,, "), ["a", "b"]);
    assert!(parse_comma_list_nonempty(" , ").is_empty());
}

fn like_std(e: &str) -> ParseUintError {
    match e {
        "cannot parse integer from empty string" => ParseUintError::Empty,
        "invalid digit found in string" => ParseUintError::InvalidDigit,
        "number too large to fit in target type" => ParseUintError::PosOverflow,
        _ => panic!("{e}"),
    }
}

#[test]
fn numbers_are_read_as_by_std() {
    let texts = [
        "", "+", "-", "0", "+0", "-0", "-1", "7", "+7", "007", "65535", "65536", "65540", "70000x", "6553x", "99999x",
        "655350x", "1 ", " 1", "1_0", "18446744073709551615", "18446744073709551616", "18446744073709551620",
        "184467440737095516150", "\u{661}", "1\u{e9}", "++1", "0x1",
    ];
    for s in texts {
        let small: Result<u16, _> = s.parse();
        assert_eq!(
            parse_uint(s, u16::MAX as u64),
            small.map(|n| n as u64).map_err(|e: std::num::ParseIntError| like_std(&e.to_string())),
            "{s}"
        );
        let large: Result<u64, _> = s.parse();
        assert_eq!(
            parse_uint(s, u64::MAX),
            large.map_err(|e: std::num::ParseIntError| like_std(&e.to_string())),
            "{s}"
        );
        if let Err(e) = parse_uint(s, u64::MAX) {
            assert_eq!(like_std(e.message()), e);
        }
    }
}

#[test]
fn numbers_are_written_as_by_std() {
    for n in [0, 1, 9, 10, 11, 99, 100, 12345678901234567890, u64::MAX] {
        assert_eq!(to_decimal(n), n.to_string());
        assert_eq!(parse_uint(&to_decimal(n), u64::MAX), Ok(n));
    }
}

#[test]
fn switches_are_read_as_by_std() {
    for s in ["true", "false", "True", " true", "1", "", "falsee"] {
        assert_eq!(parse_bool(s), s.parse::<bool>().ok(), "{s}");
    }
}

#[test]
fn flags_are_lenient() {
    for s in ["1", "true", "yes", "on", " TRUE\n", "Yes", "oN"] {
        assert!(parse_bool_flag(s), "{s}");
    }
    for s in ["", "0", "false", "no", "off", "y", "truee", "1 1"] {
        assert!(!parse_bool_flag(s), "{s}");
    }
}
