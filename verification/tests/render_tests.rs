use incrementor::render::Placeholders;
use incrementor::version::Version;

#[test]
fn lib_test_replace() {
    let placeholders = Placeholders {
        current_version: Version::parse("1.0.0-alpha.1+something").unwrap(),
        new_version: Version::parse("2.0.0").unwrap(),
    };

    let cases = [
        ("{current_version}", "1.0.0-alpha.1+something"),
        ("{new_version}", "2.0.0"),
    ];
    for (input, expect) in cases {
        assert_eq!(placeholders.replace(input), expect)
    }
}

#[test]
fn placeholder_round_trip_with_prerelease_and_build() {
    // Rendering the lone current-version token yields exactly the current
    // version's text.
    let placeholders = Placeholders {
        current_version: Version::parse("1.0.0-alpha.1+x").unwrap(),
        new_version: Version::parse("9.9.9").unwrap(),
    };
    assert_eq!(placeholders.replace("{current_version}"), "1.0.0-alpha.1+x");
}

#[test]
fn all_occurrences_are_replaced() {
    let placeholders = Placeholders {
        current_version: Version::parse("0.1.0").unwrap(),
        new_version: Version::parse("0.2.0").unwrap(),
    };
    assert_eq!(
        placeholders.replace("{current_version} and {current_version} -> {new_version}"),
        "0.1.0 and 0.1.0 -> 0.2.0"
    );
}

#[test]
fn unrecognized_braces_are_left_untouched() {
    let placeholders = Placeholders {
        current_version: Version::parse("0.1.0").unwrap(),
        new_version: Version::parse("0.2.0").unwrap(),
    };
    assert_eq!(
        placeholders.replace("{other} {current_version"),
        "{other} {current_version"
    );
}

#[test]
fn commit_message_template_renders() {
    let placeholders = Placeholders {
        current_version: Version::parse("0.1.0").unwrap(),
        new_version: Version::parse("0.2.0").unwrap(),
    };
    assert_eq!(
        placeholders.replace("bump {current_version} -> {new_version}"),
        "bump 0.1.0 -> 0.2.0"
    );
}
