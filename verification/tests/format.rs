use zeitig::format::{decimal_string, render};

#[test]
fn numbers_are_written_in_decimal() {
    assert_eq!(decimal_string(0), "0");
    assert_eq!(decimal_string(7), "7");
    assert_eq!(decimal_string(10), "10");
    assert_eq!(decimal_string(109), "109");
    assert_eq!(decimal_string(1234567890), "1234567890");
    assert_eq!(decimal_string(u64::MAX), "18446744073709551615");
}

#[test]
fn decimal_agrees_with_the_standard_library() {
    for n in (0..2000u64).chain([9_999, 10_000, 99_999, 100_000, 4_294_967_296]) {
        assert_eq!(decimal_string(n), n.to_string());
    }
}

#[test]
fn seconds_are_written_as_hours_minutes_seconds() {
    assert_eq!(render(0), "0h 0m 0s");
    assert_eq!(render(1), "0h 0m 1s");
    assert_eq!(render(3599), "0h 59m 59s");
    assert_eq!(render(3600), "1h 0m 0s");
    assert_eq!(render(86_400 + 61), "24h 1m 1s");
}
