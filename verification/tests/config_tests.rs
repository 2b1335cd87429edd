use pingmon::config::{
    u64_or, Config, DEFAULT_PROBE_WORKERS, DEFAULT_RESCAN_INTERVAL, DEFAULT_TIMEOUT_MS,
};
use pingmon::strutil::parse_u64;

#[test]
fn parse_u64_reads_plain_decimals() {
    assert_eq!(parse_u64("0"), Some(0));
    assert_eq!(parse_u64("123"), Some(123));
    assert_eq!(parse_u64("10000"), Some(10000));
    assert_eq!(parse_u64("18446744073709551615"), Some(u64::MAX));
}

#[test]
fn parse_u64_rejects_everything_else() {
    assert_eq!(parse_u64(""), None);
    assert_eq!(parse_u64("12a"), None);
    assert_eq!(parse_u64("-1"), None);
    assert_eq!(parse_u64("+1"), None);
    assert_eq!(parse_u64(" 1"), None);
    assert_eq!(parse_u64("18446744073709551616"), None);
}

#[test]
fn u64_or_falls_back_to_the_default() {
    assert_eq!(u64_or(Some("600"), 300), 600);
    assert_eq!(u64_or(Some("oops"), 300), 300);
    assert_eq!(u64_or(None, 300), 300);
}

#[test]
fn config_defaults() {
    let c = Config::default();
    assert_eq!(c.timeout_ms, DEFAULT_TIMEOUT_MS);
    assert_eq!(c.rescan_interval, DEFAULT_RESCAN_INTERVAL);
    assert_eq!(c.probe_workers, DEFAULT_PROBE_WORKERS);
    assert_eq!(c.timeout_ms, 10000);
    assert_eq!(c.rescan_interval, 300);
}

#[test]
fn config_from_env_values_parses_and_defaults() {
    let c = Config::from_env_values(Some("2500"), Some("60"), None);
    assert_eq!(c.timeout_ms, 2500);
    assert_eq!(c.rescan_interval, 60);
    assert_eq!(c.probe_workers, DEFAULT_PROBE_WORKERS);
    let c = Config::from_env_values(Some("fast"), None, Some("2"));
    assert_eq!(c.timeout_ms, DEFAULT_TIMEOUT_MS);
    assert_eq!(c.rescan_interval, DEFAULT_RESCAN_INTERVAL);
    assert_eq!(c.probe_workers, 2);
}
