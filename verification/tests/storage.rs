//! Reading the persisted high-score text.
use flappyboi::storage::parse_highscore;

#[test]
fn plain_number_parses() {
    assert_eq!(parse_highscore(b"42"), 42);
    assert_eq!(parse_highscore(b"0"), 0);
    assert_eq!(parse_highscore(b"123456789"), 123456789);
}

#[test]
fn surrounding_whitespace_is_trimmed() {
    assert_eq!(parse_highscore(b" 42\n"), 42);
    assert_eq!(parse_highscore(b"\t\r\n 7 \r\n"), 7);
}

#[test]
fn leading_plus_sign_is_accepted() {
    assert_eq!(parse_highscore(b"+7"), 7);
    assert_eq!(parse_highscore(b" +42 "), 42);
}

#[test]
fn leading_zeros_are_harmless() {
    assert_eq!(parse_highscore(b"007"), 7);
    assert_eq!(parse_highscore(b"000"), 0);
}

#[test]
fn junk_defaults_to_zero() {
    assert_eq!(parse_highscore(b""), 0);
    assert_eq!(parse_highscore(b"   "), 0);
    assert_eq!(parse_highscore(b"abc"), 0);
    assert_eq!(parse_highscore(b"12a"), 0);
    assert_eq!(parse_highscore(b"a12"), 0);
    assert_eq!(parse_highscore(b"1 2"), 0);
    assert_eq!(parse_highscore(b"+"), 0);
    assert_eq!(parse_highscore(b"++1"), 0);
    assert_eq!(parse_highscore(b"-1"), 0);
    assert_eq!(parse_highscore(b"4.5"), 0);
}

#[test]
fn word_sized_values_round_trip_but_overflow_defaults() {
    assert_eq!(parse_highscore(b"18446744073709551615"), usize::MAX);
    assert_eq!(parse_highscore(b"18446744073709551616"), 0);
    assert_eq!(parse_highscore(b"99999999999999999999999"), 0);
}
