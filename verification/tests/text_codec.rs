use gws_cli::text::{
    chunk_text, contains_str, i32_to_decimal, is_blank, join, split_char, split_whitespace, to_hex_lower,
    u64_to_decimal,
};

fn strings(v: &[&str]) -> Vec<String> {
    v.iter().map(|s| s.to_string()).collect()
}

#[test]
fn hex_of_numbers() {
    assert_eq!(to_hex_lower(0), "0");
    assert_eq!(to_hex_lower(255), "ff");
    assert_eq!(to_hex_lower(0x1a2b3c), "1a2b3c");
    assert_eq!(to_hex_lower(u128::MAX), format!("{:x}", u128::MAX));
}

#[test]
fn decimal_of_numbers() {
    assert_eq!(u64_to_decimal(0), "0");
    assert_eq!(u64_to_decimal(1234567890), "1234567890");
    assert_eq!(u64_to_decimal(u64::MAX), "18446744073709551615");
    assert_eq!(i32_to_decimal(-42), "-42");
    assert_eq!(i32_to_decimal(7), "7");
    assert_eq!(i32_to_decimal(i32::MIN), "-2147483648");
    assert_eq!(i32_to_decimal(i32::MAX), "2147483647");
}

#[test]
fn split_keeps_empty_pieces() {
    assert_eq!(split_char("a,,b", ','), strings(&["a", "", "b"]));
    assert_eq!(split_char("", ','), strings(&[""]));
    assert_eq!(split_char(",", ','), strings(&["", ""]));
    assert_eq!(split_char("abc", ','), strings(&["abc"]));
}

#[test]
fn join_undoes_split() {
    for s in ["a,,b", "", ",", "x,y,z,", "no separators"] {
        let parts = split_char(s, ',');
        assert_eq!(join(&parts, ","), s);
    }
}

#[test]
fn join_with_separator() {
    assert_eq!(join(&strings(&["a", "b", "c"]), " and "), "a and b and c");
    assert_eq!(join(&strings(&[]), "&"), "");
    assert_eq!(join(&strings(&["only"]), "&"), "only");
}

#[test]
fn chunks_of_text() {
    assert_eq!(chunk_text("abcdefg", 3), strings(&["abc", "def", "g"]));
    assert_eq!(chunk_text("abcdef", 3), strings(&["abc", "def"]));
    assert_eq!(chunk_text("", 3), strings(&[]));
}

#[test]
fn chunks_rejoin_to_text() {
    let s = "x".repeat(200);
    let parts = chunk_text(&s, 76);
    assert_eq!(parts.len(), 3);
    assert!(parts[..2].iter().all(|p| p.len() == 76));
    assert_eq!(parts.concat(), s);
}

#[test]
fn words_of_request_line() {
    assert_eq!(split_whitespace("  GET /x  HTTP/1.1\r\n"), strings(&["GET", "/x", "HTTP/1.1"]));
    assert_eq!(split_whitespace(""), strings(&[]));
    assert_eq!(split_whitespace("a\u{3000}b"), strings(&["a", "b"]));
}

#[test]
fn substrings_and_blanks() {
    assert!(contains_str("abc", "bc"));
    assert!(contains_str("abc", ""));
    assert!(!contains_str("abc", "abcd"));
    assert!(!contains_str("slow_dow", "slow_down"));
    assert!(is_blank(" \t\r\n"));
    assert!(is_blank(""));
    assert!(!is_blank(" x "));
}
