use incrementor::bump::{bump, make_prerelease, parse_prerelease, BumpError, Part};
use incrementor::version::Version;

#[test]
fn test_cases() {
    let cases: Vec<(&str, Part, Option<String>, &str)> = vec![
        // Add prerelease
        (
            "1.0.0",
            Part::Prerelease(Some("beta".to_string())),
            None,
            "1.0.0-beta",
        ),
        // Increment prerelease
        (
            "1.0.0-beta",
            Part::Prerelease(Some("beta".to_string())),
            None,
            "1.0.0-beta.1",
        ),
        // Change prerelease
        (
            "1.0.0-beta",
            Part::Prerelease(Some("test".to_string())),
            None,
            "1.0.0-test",
        ),
        // Inc. patch
        ("1.1.1", Part::Patch, None, "1.1.2"),
        // Inc. minor
        ("1.1.1", Part::Minor, None, "1.2.0"),
        // Inc. major
        ("1.1.1", Part::Major, None, "2.0.0"),
        // Keep build meta
        (
            "1.1.1+zlib-1.0.0",
            Part::Major,
            Some("zlib-1.0.0".to_string()),
            "2.0.0+zlib-1.0.0",
        ),
        // Remove build meta
        ("1.1.1+zlib-1.0.0", Part::Major, None, "2.0.0"),
        // Build meta and patch
        (
            "1.8.3-nightly.23+extra",
            Part::Patch,
            Some("extra".to_string()),
            "1.8.4+extra",
        ),
        // Build meta and prerelease
        (
            "1.8.3-nightly.23+extra",
            Part::Prerelease(Some("nightly".to_string())),
            Some("extra".to_string()),
            "1.8.3-nightly.24+extra",
        ),
        // Build meta + release
        (
            "1.8.3-nightly.23+extra",
            Part::Prerelease(None),
            Some("extra".to_string()),
            "1.8.3+extra",
        ),
        // release
        ("1.3.3-nightly.999", Part::Prerelease(None), None, "1.3.3"),
    ];

    for (before, part, build, expect) in cases {
        let version = Version::parse(before).unwrap();
        let expected_version = Version::parse(expect).unwrap();
        assert_eq!(bump(&version, &part, build).unwrap(), expected_version)
    }
}

#[test]
fn test_release_non_prerelease() {
    let cases: Vec<(&str, Part, Option<String>, &str)> =
        vec![("1.0.0", Part::Prerelease(None), None, "1.0.0")];
    for (before, part, build, _expect) in cases {
        let version = Version::parse(before).unwrap();
        assert!(bump(&version, &part, build).is_err())
    }
}

#[test]
fn release_on_release_reports_no_prerelease_to_remove() {
    let version = Version::parse("1.0.0").unwrap();
    let err = bump(&version, &Part::Prerelease(None), None).unwrap_err();
    assert_eq!(err, BumpError::NoPrereleaseToRemove);
}

#[test]
fn invalid_prerelease_label_is_rejected() {
    let version = Version::parse("1.0.0").unwrap();
    let err = bump(
        &version,
        &Part::Prerelease(Some("not a label!".to_string())),
        None,
    )
    .unwrap_err();
    assert_eq!(err, BumpError::InvalidPrereleaseLabel);
}

#[test]
fn invalid_build_metadata_is_rejected() {
    let version = Version::parse("1.0.0").unwrap();
    let err = bump(&version, &Part::Major, Some("a..b".to_string())).unwrap_err();
    assert_eq!(err, BumpError::InvalidBuildMetadata);

    let err = bump(&version, &Part::Major, Some("".to_string())).unwrap_err();
    assert_eq!(err, BumpError::InvalidBuildMetadata);
}

#[test]
fn prerelease_error_takes_precedence_over_build_error() {
    let version = Version::parse("1.0.0").unwrap();
    let err = bump(&version, &Part::Prerelease(None), Some("a..b".to_string())).unwrap_err();
    assert_eq!(err, BumpError::NoPrereleaseToRemove);
}

#[test]
fn non_numeric_counter_is_treated_as_absent() {
    // A second segment that is not numeric is no counter: bumping the same
    // label starts the counter at 1.
    let version = Version::parse("1.0.0-beta.rc").unwrap();
    let bumped = bump(&version, &Part::Prerelease(Some("beta".to_string())), None).unwrap();
    assert_eq!(bumped, Version::parse("1.0.0-beta.1").unwrap());
}

#[test]
fn deep_prerelease_segments_past_the_counter_are_dropped() {
    let version = Version::parse("1.0.0-beta.2.9").unwrap();
    let bumped = bump(&version, &Part::Prerelease(Some("beta".to_string())), None).unwrap();
    assert_eq!(bumped, Version::parse("1.0.0-beta.3").unwrap());
}

#[test]
fn test_parse_prerelease_splits() {
    let (label, counter) = parse_prerelease("beta.1");
    assert_eq!(label, Some("beta".to_string()));
    assert_eq!(counter, Some(1));

    let (label, counter) = parse_prerelease("beta");
    assert_eq!(label, Some("beta".to_string()));
    assert_eq!(counter, None);

    let (label, counter) = parse_prerelease("beta.x");
    assert_eq!(label, Some("beta".to_string()));
    assert_eq!(counter, None);

    let (label, counter) = parse_prerelease("");
    assert_eq!(label, Some("".to_string()));
    assert_eq!(counter, None);
}

#[test]
fn test_make_prerelease_joins() {
    assert_eq!(make_prerelease("beta", 2), "beta.2");
    assert_eq!(make_prerelease("nightly", 24), "nightly.24");
}
