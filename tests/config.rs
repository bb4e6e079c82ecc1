use arroyo_state::config::{DurationError, HumanReadableDuration, SqlConfig};

#[test]
fn sql_config_default_parallelism() {
    assert_eq!(SqlConfig::default().default_parallelism, 4);
}

#[test]
fn parses_durations() {
    let d = HumanReadableDuration::parse("10s").unwrap();
    assert_eq!(d.nanos, 10_000_000_000);
    assert_eq!(d.original, "10s");
    assert_eq!(HumanReadableDuration::parse("5 minutes").unwrap().nanos, 300_000_000_000);
    assert_eq!(HumanReadableDuration::parse("2h").unwrap().nanos, 7_200_000_000_000);
    assert_eq!(HumanReadableDuration::parse("3µs").unwrap().nanos, 3_000);
    assert_eq!(HumanReadableDuration::parse("7 nanos").unwrap().nanos, 7);
    assert_eq!(HumanReadableDuration::parse("250millis").unwrap().nanos, 250_000_000);
    assert_eq!(HumanReadableDuration::parse("10\u{2003}s").unwrap().nanos, 10_000_000_000);
    assert_eq!(HumanReadableDuration::parse("10\u{a0}\tms").unwrap().nanos, 10_000_000);
}

#[test]
fn refuses_bad_durations() {
    assert_eq!(HumanReadableDuration::parse("s").err(), Some(DurationError::InvalidSpecification));
    assert_eq!(HumanReadableDuration::parse("10").err(), Some(DurationError::InvalidSpecification));
    assert_eq!(HumanReadableDuration::parse("10 s!").err(), Some(DurationError::InvalidSpecification));
    assert_eq!(HumanReadableDuration::parse("10 weeks").err(), Some(DurationError::UnknownUnit));
    assert_eq!(
        HumanReadableDuration::parse("99999999999999999999s").err(),
        Some(DurationError::OutOfRange)
    );
    assert_eq!(
        HumanReadableDuration::parse("18446744073709551615h").err(),
        Some(DurationError::OutOfRange)
    );
}
