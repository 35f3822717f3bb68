use madsim::builder::{parse_u16, parse_u64, Builder, BuilderError};
use madsim::runtime::Config;
use madsim::time::Duration;

#[test]
fn parse_decimal_integers() {
    assert_eq!(parse_u64("0"), Some(0));
    assert_eq!(parse_u64("42"), Some(42));
    assert_eq!(parse_u64("+7"), Some(7));
    assert_eq!(parse_u64("18446744073709551615"), Some(u64::MAX));
    assert_eq!(parse_u64("18446744073709551616"), None);
    assert_eq!(parse_u64(""), None);
    assert_eq!(parse_u64("+"), None);
    assert_eq!(parse_u64("-1"), None);
    assert_eq!(parse_u64("12a"), None);
    assert_eq!(parse_u64(" 1"), None);
    assert_eq!(parse_u16("65535"), Some(65535));
    assert_eq!(parse_u16("65536"), None);
}

#[test]
fn parsing_agrees_with_std() {
    for s in ["0", "00012", "+99", "-3", "1e3", "", "340282366920938463463374607431768211455"] {
        assert_eq!(parse_u64(s), s.parse::<u64>().ok(), "{s}");
        assert_eq!(parse_u16(s), s.parse::<u16>().ok(), "{s}");
    }
}

#[test]
fn builder_defaults() {
    let b = Builder::from_values(None, 1_700_000_000, None, Config::default(), None, None, false).ok().unwrap();
    assert_eq!(b.seed, 1_700_000_000);
    assert_eq!(b.count, 1);
    assert_eq!(b.jobs, 1);
    assert_eq!(b.time_limit, None);
    assert!(!b.check);
    assert_eq!(b.seeds(), vec![1_700_000_000]);
}

#[test]
fn builder_from_environment_values() {
    let b = Builder::from_values(
        Some("5"),
        0,
        Some("4"),
        Config::default(),
        Some("3"),
        Some(Duration::from_secs(2)),
        false,
    )
    .ok()
    .unwrap();
    assert_eq!((b.seed, b.count, b.jobs), (5, 3, 4));
    assert_eq!(b.time_limit, Some(Duration::from_secs(2)));
    assert_eq!(b.seeds(), vec![5, 6, 7]);
}

#[test]
fn determinism_check_runs_twice() {
    let b = Builder::from_values(Some("9"), 0, None, Config::default(), None, None, true).ok().unwrap();
    assert_eq!(b.count, 2);
    assert_eq!(b.seeds(), vec![9, 9]);
    let b = Builder::from_values(Some("9"), 0, None, Config::default(), Some("5"), None, true).ok().unwrap();
    assert_eq!(b.count, 5);
}

#[test]
fn builder_errors_in_order() {
    let c = Config::default();
    assert_eq!(Builder::from_values(Some("x"), 0, Some("y"), c, Some("z"), None, false).err(), Some(BuilderError::Seed));
    assert_eq!(Builder::from_values(None, 0, Some("70000"), c, Some("z"), None, false).err(), Some(BuilderError::Jobs));
    assert_eq!(Builder::from_values(None, 0, None, c, Some("z"), None, false).err(), Some(BuilderError::Num));
}
