use incrementor::bump::{BumpError, Part};
use incrementor::orchestrate::{
    check_repo_state, resolve_new_version, stage_all, tag_name, OrchestratorError,
};
use incrementor::render::Placeholders;
use incrementor::rewrite::{FileConfig, RewriteError};
use incrementor::version::Version;

#[test]
fn end_to_end_minor_bump_rewrites_one_file() {
    let current = Version::parse("0.1.0").unwrap();
    let new_version =
        resolve_new_version(&current, &Part::Minor, &None, None).unwrap();
    assert_eq!(new_version.to_version_string(), "0.2.0");

    let placeholders = Placeholders {
        current_version: current,
        new_version: new_version.clone(),
    };
    let rules = vec![FileConfig {
        search: "version = \"{current_version}\"".to_string(),
        replace: "version = \"{new_version}\"".to_string(),
    }];
    let contents = vec!["version = \"0.1.0\"".to_string()];
    let staged = stage_all(&rules, &contents, &placeholders).unwrap();
    assert_eq!(staged, vec!["version = \"0.2.0\"".to_string()]);
    assert_eq!(new_version.to_version_string(), "0.2.0");
}

#[test]
fn staging_stops_at_the_first_failing_file() {
    let placeholders = Placeholders {
        current_version: Version::new(0, 1, 0),
        new_version: Version::new(0, 2, 0),
    };
    let rules = vec![FileConfig::default(), FileConfig::default(), FileConfig::default()];
    let contents = vec![
        "v 0.1.0".to_string(),
        "already 0.2.0".to_string(),
        "v 0.1.0".to_string(),
    ];
    let err = stage_all(&rules, &contents, &placeholders).unwrap_err();
    match err {
        OrchestratorError::Rewrite { index, error } => {
            assert_eq!(index, 1);
            assert!(matches!(error, RewriteError::PatternNotFound { .. }));
        }
        other => panic!("unexpected error {:?}", other),
    }
}

#[test]
fn staging_succeeds_on_all_files_in_order() {
    let placeholders = Placeholders {
        current_version: Version::new(0, 1, 0),
        new_version: Version::new(0, 2, 0),
    };
    let rules = vec![FileConfig::default(), FileConfig::default()];
    let contents = vec!["a 0.1.0".to_string(), "b 0.1.0 0.1.0".to_string()];
    let staged = stage_all(&rules, &contents, &placeholders).unwrap();
    assert_eq!(staged, vec!["a 0.2.0".to_string(), "b 0.2.0 0.2.0".to_string()]);
}

#[test]
fn dirty_repository_blocks_commit_and_tag() {
    let err = check_repo_state(true, false, false, true).unwrap_err();
    assert_eq!(err, OrchestratorError::RepositoryDirty);
    let err = check_repo_state(false, true, false, true).unwrap_err();
    assert_eq!(err, OrchestratorError::RepositoryDirty);
    assert!(check_repo_state(true, true, true, true).is_ok());
    assert!(check_repo_state(false, false, false, true).is_ok());
    assert!(check_repo_state(true, true, false, false).is_ok());
}

#[test]
fn explicit_version_is_taken_verbatim() {
    let current = Version::parse("0.1.0").unwrap();
    let v = resolve_new_version(
        &current,
        &Part::Unspecified,
        &Some("3.4.5-rc.1".to_string()),
        None,
    )
    .unwrap();
    assert_eq!(v.to_version_string(), "3.4.5-rc.1");
}

#[test]
fn explicit_version_gets_supplied_build_metadata() {
    let current = Version::parse("0.1.0").unwrap();
    let v = resolve_new_version(
        &current,
        &Part::Unspecified,
        &Some("3.4.5".to_string()),
        Some("nightly".to_string()),
    )
    .unwrap();
    assert_eq!(v.to_version_string(), "3.4.5+nightly");
}

#[test]
fn invalid_explicit_version_is_reported() {
    let current = Version::parse("0.1.0").unwrap();
    let err = resolve_new_version(
        &current,
        &Part::Unspecified,
        &Some("not-a-version".to_string()),
        None,
    )
    .unwrap_err();
    assert_eq!(err, OrchestratorError::InvalidExplicitVersion);
}

#[test]
fn bump_errors_pass_through_resolution() {
    let current = Version::parse("1.0.0").unwrap();
    let err = resolve_new_version(&current, &Part::Prerelease(None), &None, None).unwrap_err();
    assert_eq!(err, OrchestratorError::Bump(BumpError::NoPrereleaseToRemove));
}

#[test]
fn tag_name_prefixes_v() {
    let v = Version::parse("0.2.0").unwrap();
    assert_eq!(tag_name(&v), "v0.2.0");
}
