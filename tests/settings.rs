use sysinfo_publisher::config::{load_config, parse_seconds, ConfigError};
use sysinfo_publisher::decimal::{parse_number, push_decimal};

#[test]
fn address_is_required() {
    assert_eq!(load_config(None, None, None).err(), Some(ConfigError::MissingAddress));
}

#[test]
fn defaults_apply_when_absent() {
    let c = load_config(Some("amqp://localhost:5672".to_string()), None, None).ok().unwrap();
    assert_eq!(c.amqp_addr, "amqp://localhost:5672");
    assert_eq!(c.tick_period_secs, 3);
    assert_eq!(c.connect_timeout_secs, 10);
}

#[test]
fn given_settings_are_read() {
    let c = load_config(Some("a".to_string()), Some(b"5"), Some(b"30")).ok().unwrap();
    assert_eq!(c.tick_period_secs, 5);
    assert_eq!(c.connect_timeout_secs, 30);
}

#[test]
fn invalid_settings_are_reported() {
    let addr = || Some("a".to_string());
    assert_eq!(load_config(addr(), Some(b"0"), None).err(), Some(ConfigError::InvalidTickPeriod));
    assert_eq!(load_config(addr(), Some(b"3s"), Some(b"x")).err(), Some(ConfigError::InvalidTickPeriod));
    assert_eq!(load_config(addr(), None, Some(b"")).err(), Some(ConfigError::InvalidConnectTimeout));
}

#[test]
fn seconds_parse() {
    assert_eq!(parse_seconds(b"10"), Some(10));
    assert_eq!(parse_seconds(b"007"), Some(7));
    assert_eq!(parse_seconds(b"18446744073709551615"), Some(u64::MAX));
    assert_eq!(parse_seconds(b"18446744073709551616"), None);
    assert_eq!(parse_seconds(b" 1"), None);
    assert_eq!(parse_seconds(b"0"), None);
}

#[test]
fn decimal_spelling_and_reading() {
    let mut out = b"x".to_vec();
    push_decimal(&mut out, 1_700_000_000);
    assert_eq!(out, b"x1700000000".to_vec());
    assert_eq!(parse_number(b"ab123,", 2), Some((123, 5)));
    assert_eq!(parse_number(b"ab", 2), None);
}
