use code_nix::version::{parse_dec, parse_version, Version};

#[test]
fn parses_a_plain_version() {
    let v = parse_version("1.75.0").unwrap();
    assert_eq!(v, Version { major: 1, minor: 75, patch: 0 });
}

#[test]
fn parses_large_components() {
    let v = parse_version("10.200.3000").unwrap();
    assert_eq!(v, Version { major: 10, minor: 200, patch: 3000 });
}

#[test]
fn rejects_malformed_versions() {
    assert!(parse_version("").is_none());
    assert!(parse_version("1.75").is_none());
    assert!(parse_version("1.75.0.1").is_none());
    assert!(parse_version("01.2.3").is_none());
    assert!(parse_version("1.2.3-beta").is_none());
    assert!(parse_version("1..3").is_none());
    assert!(parse_version("a.b.c").is_none());
    assert!(parse_version("99999999999999999999999.0.0").is_none());
}

#[test]
fn decimal_component_round_trips() {
    assert_eq!(parse_dec("0"), Some(0));
    assert_eq!(parse_dec("42"), Some(42));
    assert_eq!(parse_dec("18446744073709551615"), Some(u64::MAX));
    assert_eq!(parse_dec("18446744073709551616"), None);
    assert_eq!(parse_dec("007"), None);
    assert_eq!(parse_dec(""), None);
}

#[test]
fn version_ordering_is_numeric_not_lexicographic() {
    let a = Version { major: 1, minor: 9, patch: 0 };
    let b = Version { major: 1, minor: 10, patch: 0 };
    assert!(a.le(&b));
    assert!(!b.le(&a));
    let c = Version { major: 2, minor: 0, patch: 0 };
    assert!(b.le(&c));
}
