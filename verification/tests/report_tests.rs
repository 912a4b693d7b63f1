use vanity_search::error::SearchError;
use vanity_search::report::{decimal_text, duration_line};

#[test]
fn decimal_text_of_small_numbers() {
    assert_eq!(decimal_text(0), "0");
    assert_eq!(decimal_text(7), "7");
    assert_eq!(decimal_text(9), "9");
    assert_eq!(decimal_text(10), "10");
    assert_eq!(decimal_text(101), "101");
}

#[test]
fn decimal_text_of_large_numbers() {
    assert_eq!(decimal_text(1234567890), "1234567890");
    assert_eq!(decimal_text(u64::MAX), "18446744073709551615");
}

#[test]
fn decimal_text_agrees_with_the_standard_rendering() {
    for n in [0u64, 1, 42, 99, 100, 999, 1000, 86_400, 4_294_967_296] {
        assert_eq!(decimal_text(n), format!("{}", n));
    }
}

#[test]
fn duration_line_reads_took_n_seconds() {
    assert_eq!(duration_line(0), "Took 0 seconds");
    assert_eq!(duration_line(1), "Took 1 seconds");
    assert_eq!(duration_line(75), "Took 75 seconds");
    assert_eq!(duration_line(3600), "Took 3600 seconds");
}

#[test]
fn startup_errors_are_those_before_the_search() {
    assert!(SearchError::ParseError.fatal_at_startup());
    assert!(SearchError::ValidationError.fatal_at_startup());
    assert!(!SearchError::DerivationError.fatal_at_startup());
    assert!(!SearchError::ChannelError.fatal_at_startup());
}

#[test]
fn every_error_has_its_message() {
    assert_eq!(SearchError::ParseError.message(), "Error: Not a well-formed descriptor");
    assert_eq!(
        SearchError::ValidationError.message(),
        "Error: Not a ranged ('*' inside) descriptor, can't derive addresses"
    );
    assert_eq!(SearchError::DerivationError.message(), "Error: Failed to derive address");
    assert_eq!(
        SearchError::ChannelError.message(),
        "Error: Couldn't receive result over channel"
    );
}
