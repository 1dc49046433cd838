use hippo_core::song_path::{is_valid_song_path, parse_i32_bytes, split_song_path};

#[test]
fn parses_plain_numbers() {
    assert_eq!(parse_i32_bytes(b"42"), Some(42));
    assert_eq!(parse_i32_bytes(b"0"), Some(0));
    assert_eq!(parse_i32_bytes(b"007"), Some(7));
}

#[test]
fn parses_signs() {
    assert_eq!(parse_i32_bytes(b"+7"), Some(7));
    assert_eq!(parse_i32_bytes(b"-13"), Some(-13));
    assert_eq!(parse_i32_bytes(b"-0"), Some(0));
}

#[test]
fn parses_the_range_limits() {
    assert_eq!(parse_i32_bytes(b"2147483647"), Some(i32::MAX));
    assert_eq!(parse_i32_bytes(b"-2147483648"), Some(i32::MIN));
    assert_eq!(parse_i32_bytes(b"2147483648"), None);
    assert_eq!(parse_i32_bytes(b"-2147483649"), None);
    assert_eq!(parse_i32_bytes(b"99999999999999999999999"), None);
}

#[test]
fn rejects_what_std_rejects() {
    for text in ["", "-", "+", "1a", " 1", "1 ", "--1", "+-1", "1.0", "٣"] {
        assert_eq!(parse_i32_bytes(text.as_bytes()), text.parse::<i32>().ok(), "{text:?}");
    }
}

#[test]
fn agrees_with_std_parse() {
    for text in ["12", "-12", "+12", "2147483647", "-2147483648", "2147483648", "0x10", "", "+"] {
        assert_eq!(parse_i32_bytes(text.as_bytes()), text.parse::<i32>().ok(), "{text:?}");
    }
}

#[test]
fn splits_a_path_with_subsong() {
    assert!(is_valid_song_path("music/tune.sid|3"));
    assert_eq!(split_song_path("music/tune.sid|3"), ("music/tune.sid", 3));
}

#[test]
fn path_without_separator_is_subsong_zero() {
    assert!(is_valid_song_path("music/tune.mod"));
    assert_eq!(split_song_path("music/tune.mod"), ("music/tune.mod", 0));
}

#[test]
fn splits_at_the_first_separator_only() {
    assert!(!is_valid_song_path("a|1|2"));
    assert!(is_valid_song_path("|5"));
    assert_eq!(split_song_path("|5"), ("", 5));
    assert_eq!(split_song_path("a|-1"), ("a", -1));
}

#[test]
fn keeps_non_ascii_names() {
    assert!(is_valid_song_path("müsik/Ünïcode.sid|12"));
    assert_eq!(split_song_path("müsik/Ünïcode.sid|12"), ("müsik/Ünïcode.sid", 12));
}

#[test]
fn rejects_bad_subsong_text() {
    assert!(!is_valid_song_path("a|"));
    assert!(!is_valid_song_path("a|x"));
    assert!(!is_valid_song_path("a|99999999999"));
}

#[test]
fn rejects_nul_in_the_file_name() {
    assert!(!is_valid_song_path("a\0b"));
    assert!(!is_valid_song_path("a\0b|1"));
    // a NUL after the separator is part of the index text, which then fails to parse
    assert!(!is_valid_song_path("ab|1\0"));
}
