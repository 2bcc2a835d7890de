use incrementor::render::Placeholders;
use incrementor::rewrite::{replace_version, FileConfig, RewriteError};
use incrementor::version::Version;

#[test]
fn main_test_replace() {
    let placeholders = Placeholders {
        current_version: Version::new(0, 1, 0),
        new_version: Version::new(0, 2, 0),
    };

    let content = r#"
            version = "0.1.0"

            [dependencies]
            some-dep = { version = "0.1.0" }
        "#;

    let file_config = FileConfig {
        search: "version = \"{current_version}\"$".to_string(),
        replace: "version = \"{new_version}\"".to_string(),
    };

    let res = replace_version(content, &file_config, &placeholders).unwrap();

    assert_eq!(
        res,
        r#"
            version = "0.2.0"

            [dependencies]
            some-dep = { version = "0.1.0" }
        "#
    );
}

#[test]
fn test_failure() {
    let placeholders = Placeholders {
        current_version: Version::new(0, 1, 0),
        new_version: Version::new(0, 2, 0),
    };

    let content = r#"
            version = "0.2.0"

            [dependencies]
            some-dep = { version = "0.1.0" }
        "#;

    let file_config = FileConfig {
        search: "version = \"{current_version}\"$".to_string(),
        replace: "version = \"{new_version}\"".to_string(),
    };

    let res = replace_version(content, &file_config, &placeholders);

    assert!(res.is_err());
}

#[test]
fn already_bumped_contents_report_pattern_not_found() {
    // A file that already holds the new version (and not the current one)
    // fails hard under the default rule instead of silently succeeding.
    let placeholders = Placeholders {
        current_version: Version::new(0, 1, 0),
        new_version: Version::new(0, 2, 0),
    };
    let file_config = FileConfig::default();
    let res = replace_version("version = \"0.2.0\"", &file_config, &placeholders);
    assert!(matches!(res, Err(RewriteError::PatternNotFound { .. })));
}

#[test]
fn invalid_search_pattern_is_reported() {
    let placeholders = Placeholders {
        current_version: Version::new(0, 1, 0),
        new_version: Version::new(0, 2, 0),
    };
    let file_config = FileConfig {
        search: "version = (".to_string(),
        replace: "{new_version}".to_string(),
    };
    let res = replace_version("version = 0.1.0", &file_config, &placeholders);
    assert!(matches!(res, Err(RewriteError::InvalidPattern { .. })));
}

#[test]
fn build_metadata_plus_is_escaped_in_the_pattern() {
    // The `+` of the rendered current version must match literally, not
    // act as a quantifier.
    let placeholders = Placeholders {
        current_version: Version::parse("1.0.0+zlib").unwrap(),
        new_version: Version::parse("2.0.0").unwrap(),
    };
    let file_config = FileConfig::default();
    let res = replace_version("pkg 1.0.0+zlib here", &file_config, &placeholders).unwrap();
    assert_eq!(res, "pkg 2.0.0 here");
}

#[test]
fn default_rule_replaces_every_occurrence() {
    let placeholders = Placeholders {
        current_version: Version::new(1, 2, 3),
        new_version: Version::new(1, 2, 4),
    };
    let file_config = FileConfig::default();
    let res = replace_version("a 1.2.3 b 1.2.3 c", &file_config, &placeholders).unwrap();
    assert_eq!(res, "a 1.2.4 b 1.2.4 c");
}

#[test]
fn multi_line_anchors_match_line_ends() {
    let placeholders = Placeholders {
        current_version: Version::new(0, 1, 0),
        new_version: Version::new(0, 2, 0),
    };
    let file_config = FileConfig {
        search: "^version = {current_version}$".to_string(),
        replace: "version = {new_version}".to_string(),
    };
    let content = "name = x\nversion = 0.1.0\nother = version = 0.1.0 tail\n";
    let res = replace_version(content, &file_config, &placeholders).unwrap();
    assert_eq!(res, "name = x\nversion = 0.2.0\nother = version = 0.1.0 tail\n");
}
