use incrementor::version::Version;

#[test]
fn parse_and_render_round_trip() {
    let cases = [
        "0.0.0",
        "0.1.0",
        "1.2.3",
        "1.0.0-beta",
        "1.0.0-beta.1",
        "1.8.3-nightly.23+extra",
        "1.0.0-alpha.1+something",
        "1.1.1+zlib-1.0.0",
        "10.200.3000",
        "1.0.0-0a1",
        "1.0.0+01",
        "18446744073709551615.0.0",
    ];
    for case in cases {
        let v = Version::parse(case).unwrap();
        assert_eq!(v.to_version_string(), case);
    }
}

#[test]
fn parse_rejects_malformed_versions() {
    let cases = [
        "",
        "1",
        "1.0",
        "1.0.0.0",
        "01.0.0",
        "1.00.0",
        "1.0.0-",
        "1.0.0+",
        "1.0.0-beta..1",
        "1.0.0-01",
        "1.0.0+a_b",
        "v1.0.0",
        "1.0.0 ",
        "1.-1.0",
        "18446744073709551616.0.0",
    ];
    for case in cases {
        assert!(Version::parse(case).is_none(), "accepted {:?}", case);
    }
}

#[test]
fn parse_splits_the_fields() {
    let v = Version::parse("1.8.3-nightly.23+extra").unwrap();
    assert_eq!(v.major, 1);
    assert_eq!(v.minor, 8);
    assert_eq!(v.patch, 3);
    assert_eq!(v.pre, "nightly.23");
    assert_eq!(v.build, "extra");
}

#[test]
fn new_builds_a_bare_release() {
    let v = Version::new(0, 2, 0);
    assert_eq!(v.to_version_string(), "0.2.0");
    assert_eq!(v, Version::parse("0.2.0").unwrap());
}

#[test]
fn largest_u64_fields_render_exactly() {
    let v = Version::new(u64::MAX, 0, u64::MAX);
    assert_eq!(
        v.to_version_string(),
        "18446744073709551615.0.18446744073709551615"
    );
}
