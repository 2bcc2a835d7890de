use incrementor::bump::Part;
use incrementor::orchestrate::{parse_part_from_args, Args, OutputFormat};

#[test]
fn test_parse_part() {
    struct TestCase {
        args: Args,
        part: Part,
    }

    let cases = vec![
        TestCase {
            args: Args {
                config: None,
                dry_run: false,
                prerelease: None,
                patch: false,
                minor: false,
                major: false,
                release: false,
                build: None,
                new_version: None,
                tag: false,
                no_tag: false,
                commit: false,
                no_commit: false,
                allow_dirty: false,
                commit_message: "".to_string(),
                output: OutputFormat::Json,
            },
            part: Part::Unspecified,
        },
        TestCase {
            args: Args {
                config: None,
                dry_run: false,
                prerelease: None,
                patch: false,
                minor: false,
                major: true,
                release: false,
                build: None,
                new_version: None,
                tag: false,
                no_tag: false,
                commit: false,
                no_commit: false,
                allow_dirty: false,
                commit_message: "".to_string(),
                output: OutputFormat::Json,
            },
            part: Part::Major,
        },
        TestCase {
            args: Args {
                config: None,
                dry_run: false,
                prerelease: None,
                patch: false,
                minor: true,
                major: false,
                release: false,
                build: None,
                new_version: None,
                tag: false,
                no_tag: false,
                commit: false,
                no_commit: false,
                allow_dirty: false,
                commit_message: "".to_string(),
                output: OutputFormat::Json,
            },
            part: Part::Minor,
        },
        TestCase {
            args: Args {
                config: None,
                dry_run: false,
                prerelease: None,
                patch: true,
                minor: false,
                major: false,
                release: false,
                build: None,
                new_version: None,
                tag: false,
                no_tag: false,
                commit: false,
                no_commit: false,
                allow_dirty: false,
                commit_message: "".to_string(),
                output: OutputFormat::Json,
            },
            part: Part::Patch,
        },
        TestCase {
            args: Args {
                config: None,
                dry_run: false,
                prerelease: Some("beta".to_string()),
                patch: false,
                minor: false,
                major: false,
                release: false,
                build: None,
                new_version: None,
                tag: false,
                no_tag: false,
                commit: false,
                no_commit: false,
                allow_dirty: false,
                commit_message: "".to_string(),
                output: OutputFormat::Json,
            },
            part: Part::Prerelease(Some("beta".to_string())),
        },
        TestCase {
            args: Args {
                config: None,
                dry_run: false,
                prerelease: None,
                patch: false,
                minor: false,
                major: false,
                release: true,
                build: None,
                new_version: None,
                tag: false,
                no_tag: false,
                commit: false,
                no_commit: false,
                allow_dirty: false,
                commit_message: "".to_string(),
                output: OutputFormat::Json,
            },
            part: Part::Prerelease(None),
        },
    ];

    for case in cases {
        let part = parse_part_from_args(&case.args);
        assert_eq!(part, case.part)
    }
}
