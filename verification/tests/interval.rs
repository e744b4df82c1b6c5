use status_webhook::interval::{interval_secs, parse_seconds, DEFAULT_INTERVAL_SECS};

#[test]
fn default_interval_is_thirty_seconds() {
    assert_eq!(DEFAULT_INTERVAL_SECS, 30);
}

#[test]
fn absent_setting_gives_the_default() {
    assert_eq!(interval_secs(None), 30);
}

#[test]
fn readable_setting_is_taken() {
    assert_eq!(interval_secs(Some("5")), 5);
    assert_eq!(interval_secs(Some("30")), 30);
    assert_eq!(interval_secs(Some("3600")), 3600);
    assert_eq!(interval_secs(Some("0")), 0);
    assert_eq!(interval_secs(Some("+15")), 15);
    assert_eq!(interval_secs(Some("007")), 7);
}

#[test]
fn unreadable_setting_gives_the_default() {
    for text in ["", " ", "abc", "1.5", "-1", "10s", " 10", "10 ", "+", "++1", "1_000", "0x10"] {
        assert_eq!(interval_secs(Some(text)), 30, "setting {text:?}");
    }
}

#[test]
fn setting_beyond_sixty_four_bits_gives_the_default() {
    assert_eq!(interval_secs(Some("18446744073709551615")), u64::MAX);
    assert_eq!(interval_secs(Some("18446744073709551616")), 30);
    assert_eq!(interval_secs(Some("99999999999999999999999999")), 30);
}

#[test]
fn parse_seconds_reads_decimal_digits() {
    assert_eq!(parse_seconds("0"), Some(0));
    assert_eq!(parse_seconds("1"), Some(1));
    assert_eq!(parse_seconds("42"), Some(42));
    assert_eq!(parse_seconds("+42"), Some(42));
    assert_eq!(parse_seconds("0000000000000000000000042"), Some(42));
    assert_eq!(parse_seconds("18446744073709551615"), Some(u64::MAX));
    assert_eq!(parse_seconds("+18446744073709551615"), Some(u64::MAX));
}

#[test]
fn parse_seconds_refuses_everything_else() {
    assert_eq!(parse_seconds(""), None);
    assert_eq!(parse_seconds("+"), None);
    assert_eq!(parse_seconds("-"), None);
    assert_eq!(parse_seconds("-0"), None);
    assert_eq!(parse_seconds("-5"), None);
    assert_eq!(parse_seconds("5-"), None);
    assert_eq!(parse_seconds("4 2"), None);
    assert_eq!(parse_seconds("42\n"), None);
    assert_eq!(parse_seconds("\u{664}\u{662}"), None);
    assert_eq!(parse_seconds("4\u{ff12}"), None);
    assert_eq!(parse_seconds("18446744073709551616"), None);
    assert_eq!(parse_seconds("184467440737095516150"), None);
}

#[test]
fn parse_seconds_agrees_with_the_standard_parser() {
    let samples = [
        "", "0", "00", "9", "10", "+", "+0", "+9", "++9", "-9", "+-9", "9+", " 9", "9 ", "a", "9a",
        "a9", "1e3", "1.0", "1,0", "١", "٣٠", "30", "86400", "18446744073709551614",
        "18446744073709551615", "18446744073709551616", "18446744073709551620",
        "28446744073709551615", "100000000000000000000", "+18446744073709551615",
        "+18446744073709551616", "/", ":", "0/", "0:", "\0", "0\0",
    ];
    for text in samples {
        assert_eq!(parse_seconds(text), text.parse::<u64>().ok(), "text {text:?}");
    }
}
