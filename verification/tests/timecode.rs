use ttml_processor::error::ConvertError;
use ttml_processor::timecode::parse_ttml_time_to_ms;

fn ms(s: &str) -> u64 {
    parse_ttml_time_to_ms(s).unwrap()
}

fn rejected(s: &str) -> bool {
    matches!(parse_ttml_time_to_ms(s), Err(ConvertError::InvalidTime(_)))
}

#[test]
fn seconds_with_suffix() {
    assert_eq!(ms("1s"), 1000);
    assert_eq!(ms("12.345s"), 12345);
    assert_eq!(ms("0s"), 0);
    assert_eq!(ms("0.5s"), 500);
    assert_eq!(ms("+2s"), 2000);
}

#[test]
fn seconds_with_suffix_round_to_nearest_millisecond() {
    assert_eq!(ms("0.0004s"), 0);
    assert_eq!(ms("0.0005s"), 1);
    assert_eq!(ms("1.2345s"), 1235);
    assert_eq!(ms("1.23449s"), 1234);
    assert_eq!(ms("0.9995s"), 1000);
}

#[test]
fn clock_forms() {
    assert_eq!(ms("00:01.5"), 1500);
    assert_eq!(ms("01:00:00"), 3_600_000);
    assert_eq!(ms("01:02:03.456"), 3_723_456);
    assert_eq!(ms("02:03.456"), 123_456);
    assert_eq!(ms("3.456"), 3456);
    assert_eq!(ms("90"), 90_000);
}

#[test]
fn fraction_is_left_justified() {
    assert_eq!(ms("0.4"), 400);
    assert_eq!(ms("0.45"), 450);
    assert_eq!(ms("0.456"), 456);
}

#[test]
fn malformed_time_codes_are_rejected() {
    assert!(rejected(".5"));
    assert!(rejected("60:00"));
    assert!(rejected("-1s"));
    assert!(rejected(""));
    assert!(rejected("s"));
    assert!(rejected(".5s"));
    assert!(rejected("5.s"));
    assert!(rejected("1:60"));
    assert!(rejected("1:2:3:4"));
    assert!(rejected("0.4567"));
    assert!(rejected("1.2.3"));
    assert!(rejected("abc"));
    assert!(rejected("12:xx"));
}

#[test]
fn values_beyond_sixty_four_bits_are_rejected() {
    assert!(rejected("18446744073709551616"));
    assert!(rejected("99999999999999999999s"));
    assert!(rejected("18446744073709551615:00:00"));
    assert_eq!(ms("18446744073709551.615s"), u64::MAX);
    assert!(rejected("18446744073709551.616s"));
}

#[test]
fn error_holds_the_literal() {
    match parse_ttml_time_to_ms("12:xx") {
        Err(ConvertError::InvalidTime(message)) => assert!(message.contains("12:xx")),
        other => panic!("unexpected result {:?}", other),
    }
}
