//! The transaction orchestrator's decision logic: resolving the requested
//! change into a new version, refusing work on a dirty repository, and
//! staging every file rewrite in memory before anything is written.

use vstd::prelude::*;

use crate::bump::bump;
use crate::bump::counter_of;
use crate::bump::pre_label;
use crate::bump::spec_bump;
use crate::bump::BumpError;
use crate::bump::Part;
use crate::render::Placeholders;
use crate::rewrite::replace_version;
use crate::rewrite::rewrite_applies;
use crate::rewrite::rewritten;
use crate::rewrite::FileConfig;
use crate::rewrite::RewriteError;
use crate::version::check_dotted;
use crate::version::spec_parse_version;
use crate::version::valid_build;
use crate::version::version_text;
use crate::version::Version;
use crate::version::VersionView;

verus! {

/// How a run reports its result. `Quiet` prints nothing.
#[derive(Debug, Clone, Copy, PartialEq, Eq, Structural)]
pub enum OutputFormat {
    Json,
    Quiet,
}

/// The command-line selections the core consumes, as plain values.
pub struct Args {
    pub config: Option<String>,
    pub dry_run: bool,
    pub prerelease: Option<String>,
    pub patch: bool,
    pub minor: bool,
    pub major: bool,
    pub release: bool,
    pub build: Option<String>,
    pub new_version: Option<String>,
    pub tag: bool,
    pub no_tag: bool,
    pub commit: bool,
    pub no_commit: bool,
    pub allow_dirty: bool,
    pub commit_message: String,
    pub output: OutputFormat,
}

/// The part the flag set selects, in precedence order: an explicit
/// pre-release label first, then patch, minor, major, and last the
/// pre-release removal; nothing set selects `Unspecified`.
pub open spec fn spec_part_from_args(a: Args) -> Part {
    if a.prerelease is Some {
        Part::Prerelease(Some(a.prerelease->0))
    } else if a.patch {
        Part::Patch
    } else if a.minor {
        Part::Minor
    } else if a.major {
        Part::Major
    } else if a.release {
        Part::Prerelease(None)
    } else {
        Part::Unspecified
    }
}

/// Parse the part (minor, major etc.) from the arguments.
pub fn parse_part_from_args(args: &Args) -> (r: Part)
    ensures
        r == spec_part_from_args(*args),
{
    if let Some(p) = &args.prerelease {
        Part::Prerelease(Some(p.clone()))
    } else if args.patch {
        Part::Patch
    } else if args.minor {
        Part::Minor
    } else if args.major {
        Part::Major
    } else if args.release {
        Part::Prerelease(None)
    } else {
        Part::Unspecified
    }
}

#[derive(Debug, Clone, PartialEq, Eq)]
pub enum OrchestratorError {
    /// The version-transition engine refused the bump.
    Bump(BumpError),
    /// The explicitly supplied target version does not parse.
    InvalidExplicitVersion,
    /// A file's rewrite failed; `index` is the file's position in rule
    /// order.
    Rewrite { index: usize, error: RewriteError },
    /// Commit or tag work was requested against an unclean working tree.
    RepositoryDirty,
}

/// Refuses to proceed when commit or tag work is requested, the
/// repository is dirty, and the dirty override is not set.
pub fn check_repo_state(
    wants_commit: bool,
    wants_tag: bool,
    allow_dirty: bool,
    repo_dirty: bool,
) -> (r: Result<(), OrchestratorError>)
    ensures
        r is Err <==> ((wants_commit || wants_tag) && repo_dirty && !allow_dirty),
        r matches Err(e) ==> e == OrchestratorError::RepositoryDirty,
{
    if (wants_commit || wants_tag) && repo_dirty && !allow_dirty {
        Err(OrchestratorError::RepositoryDirty)
    } else {
        Ok(())
    }
}

/// An explicit target with the supplied build metadata attached; absent
/// metadata leaves the target exactly as given.
pub open spec fn with_build(t: VersionView, build: Option<Seq<char>>) -> VersionView {
    match build {
        Option::None => t,
        Option::Some(b) => VersionView {
            major: t.major,
            minor: t.minor,
            patch: t.patch,
            pre: t.pre,
            build: b,
        },
    }
}

/// Resolves the requested change into the new version: an explicit target
/// is parsed and taken verbatim (with supplied build metadata attached);
/// otherwise the selected part is bumped.
pub fn resolve_new_version(
    current: &Version,
    part: &Part,
    explicit: &Option<String>,
    build: Option<String>,
) -> (r: Result<Version, OrchestratorError>)
    requires
        *explicit is None ==> !(*part matches Part::Unspecified),
        *explicit is None ==> (*part matches Part::Major ==> current.major < u64::MAX),
        *explicit is None ==> (*part matches Part::Minor ==> current.minor < u64::MAX),
        *explicit is None ==> (*part matches Part::Patch ==> current.patch < u64::MAX),
        *explicit is None ==> (*part matches Part::Prerelease(Some(l)) ==> (counter_of(
            current.pre@,
        ) matches Some(n) ==> (pre_label(current.pre@) != l@ || n < u64::MAX))),
    ensures
        *explicit matches Some(s) ==> ({
            let pv = spec_parse_version(s@);
            &&& (r is Ok <==> (pv is Some && (build matches Some(b) ==> valid_build(b@))))
            &&& (r matches Ok(v) ==> pv is Some && v@ == with_build(pv->Some_0, build.deep_view()))
            &&& (r matches Err(e) ==> (if pv is None {
                e == OrchestratorError::InvalidExplicitVersion
            } else {
                e == OrchestratorError::Bump(BumpError::InvalidBuildMetadata)
            }))
        }),
        *explicit is None ==> ({
            let sb = spec_bump(current@, *part, build.deep_view());
            &&& (r is Ok <==> sb is Ok)
            &&& (r matches Ok(v) ==> v@ == sb->Ok_0)
            &&& (r matches Err(e) ==> e == OrchestratorError::Bump(sb->Err_0))
        }),
{
    match explicit {
        Some(s) => {
            let parsed = Version::parse(s.as_str());
            match parsed {
                None => Err(OrchestratorError::InvalidExplicitVersion),
                Some(v) => match build {
                    None => Ok(v),
                    Some(b) => {
                        if !check_dotted(b.as_str(), false) {
                            Err(OrchestratorError::Bump(BumpError::InvalidBuildMetadata))
                        } else {
                            let out = Version {
                                major: v.major,
                                minor: v.minor,
                                patch: v.patch,
                                pre: v.pre,
                                build: b,
                            };
                            Ok(out)
                        }
                    },
                },
            }
        },
        None => match bump(current, part, build) {
            Ok(v) => Ok(v),
            Err(e) => Err(OrchestratorError::Bump(e)),
        },
    }
}

/// Stages every file rewrite in rule order, in memory, stopping at the
/// first failure; nothing is written anywhere. Success hands back one new
/// contents value per rule, in the same order.
pub fn stage_all(rules: &Vec<FileConfig>, contents: &Vec<String>, placeholders: &Placeholders) -> (r:
    Result<Vec<String>, OrchestratorError>)
    requires
        rules@.len() == contents@.len(),
    ensures
        ({
            let cur = placeholders.current_text();
            let newv = placeholders.new_text();
            &&& (r is Ok <==> (forall|i: int|
                0 <= i < rules@.len() ==> rewrite_applies(
                    rules@[i].search@,
                    contents@[i]@,
                    cur,
                    newv,
                )))
            &&& (r matches Ok(outs) ==> outs@.len() == rules@.len() && (forall|i: int|
                0 <= i < rules@.len() ==> outs@[i]@ == rewritten(
                    rules@[i].search@,
                    rules@[i].replace@,
                    contents@[i]@,
                    cur,
                    newv,
                )))
            &&& (r matches Err(e) ==> e matches OrchestratorError::Rewrite { index, error }
                && index < rules@.len() && !rewrite_applies(
                rules@[index as int].search@,
                contents@[index as int]@,
                cur,
                newv,
            ) && (forall|j: int|
                0 <= j < index ==> rewrite_applies(
                    rules@[j].search@,
                    contents@[j]@,
                    cur,
                    newv,
                )))
        }),
{
    let n: usize = rules.len();
    let mut outs: Vec<String> = Vec::new();
    let mut i: usize = 0;
    while i < n
        invariant
            i <= n,
            n == rules@.len(),
            rules@.len() == contents@.len(),
            outs@.len() == i,
            forall|j: int|
                0 <= j < i ==> rewrite_applies(
                    rules@[j].search@,
                    contents@[j]@,
                    placeholders.current_text(),
                    placeholders.new_text(),
                ),
            forall|j: int|
                0 <= j < i ==> outs@[j]@ == rewritten(
                    rules@[j].search@,
                    rules@[j].replace@,
                    contents@[j]@,
                    placeholders.current_text(),
                    placeholders.new_text(),
                ),
        decreases n - i,
    {
        let rule = &rules[i];
        let content = &contents[i];
        match replace_version(content.as_str(), rule, placeholders) {
            Ok(out) => {
                outs.push(out);
            },
            Err(e) => {
                return Err(OrchestratorError::Rewrite { index: i, error: e });
            },
        }
        i += 1;
    }
    Ok(outs)
}

/// The tag name for a new version: `v` followed by the version text.
pub fn tag_name(v: &Version) -> (r: String)
    ensures
        r@ == seq!['v'] + version_text(v@),
{
    let mut out = String::from_str("v");
    let text = v.to_version_string();
    out.append(text.as_str());
    proof {
        reveal_strlit("v");
        assert("v"@ + version_text(v@) =~= seq!['v'] + version_text(v@));
    }
    out
}

} // verus!
