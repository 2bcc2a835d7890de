//! The version-transition engine: computing a new version from a current
//! one, a requested bump kind and optional build metadata.

use vstd::prelude::*;

use crate::text::find_char;
use crate::text::lemma_find_char;
use crate::text::push_char;
use crate::version::all_digits;
use crate::version::check_dotted;
use crate::version::find_char_in;
use crate::version::parse_num_digits;
use crate::version::push_u64;
use crate::version::str_to_nat;
use crate::version::u64_text;
use crate::version::valid_build;
use crate::version::valid_pre;
use crate::version::Version;
use crate::version::VersionView;

verus! {

/// Which part of a version a bump changes. `Prerelease(Some(label))` moves
/// to or advances that pre-release; `Prerelease(None)` removes the
/// pre-release; `Unspecified` selects nothing and is refused by `bump`.
#[derive(Debug, Clone, PartialEq, Eq)]
pub enum Part {
    Major,
    Minor,
    Patch,
    Prerelease(Option<String>),
    Unspecified,
}

#[derive(Debug, Clone, Copy, PartialEq, Eq, Structural)]
pub enum BumpError {
    /// A pre-release removal was asked of a version that has no pre-release.
    NoPrereleaseToRemove,
    /// The requested pre-release label is not a valid pre-release string.
    InvalidPrereleaseLabel,
    /// The supplied build metadata is not a valid build-metadata string.
    InvalidBuildMetadata,
}

/// The label of a pre-release string: everything before the first dot.
pub open spec fn pre_label(s: Seq<char>) -> Seq<char> {
    s.take(find_char(s, '.') as int)
}

/// The counter of a pre-release string: its second dot-separated segment,
/// when that segment is numeric and fits in a `u64`; otherwise absent.
pub open spec fn counter_of(s: Seq<char>) -> Option<u64> {
    let i = find_char(s, '.');
    if i >= s.len() {
        None
    } else {
        let rest = s.skip(i as int + 1);
        let seg = rest.take(find_char(rest, '.') as int);
        if seg.len() > 0 && all_digits(seg) && str_to_nat(seg) <= u64::MAX {
            Some(str_to_nat(seg) as u64)
        } else {
            None
        }
    }
}

/// The pre-release string after a `Prerelease(Some(label))` bump: the label
/// alone when the current version has no pre-release or carries a different
/// label; otherwise the label with its counter started at 1 or advanced.
pub open spec fn next_pre(pre: Seq<char>, label: Seq<char>) -> Seq<char> {
    if pre.len() == 0 || pre_label(pre) != label {
        label
    } else {
        match counter_of(pre) {
            Option::None => label + seq!['.'] + u64_text(1),
            Option::Some(n) => label + seq!['.'] + u64_text((n + 1) as nat),
        }
    }
}

pub open spec fn build_text(build: Option<Seq<char>>) -> Seq<char> {
    match build {
        Option::None => Seq::<char>::empty(),
        Option::Some(b) => b,
    }
}

/// Supplied build metadata must be a valid build-metadata string; absent
/// metadata is always fine.
pub open spec fn build_ok(build: Option<Seq<char>>) -> bool {
    match build {
        Option::None => true,
        Option::Some(b) => valid_build(b),
    }
}

/// What `bump` computes. Build metadata is attached exactly when supplied
/// and never carried over from the input, whatever the kind; kind-specific
/// errors take precedence over bad build metadata.
pub open spec fn spec_bump(v: VersionView, part: Part, build: Option<Seq<char>>) -> Result<
    VersionView,
    BumpError,
>
    recommends
        !(part matches Part::Unspecified),
{
    match part {
        Part::Major => finish(
            ((v.major + 1) as u64, 0u64, 0u64),
            Seq::<char>::empty(),
            build,
        ),
        Part::Minor => finish((v.major, (v.minor + 1) as u64, 0u64), Seq::<char>::empty(), build),
        Part::Patch => finish((v.major, v.minor, (v.patch + 1) as u64), Seq::<char>::empty(), build),
        Part::Prerelease(opt) => match opt {
            Option::None => {
                if v.pre.len() == 0 {
                    Err(BumpError::NoPrereleaseToRemove)
                } else {
                    finish((v.major, v.minor, v.patch), Seq::<char>::empty(), build)
                }
            },
            Option::Some(label) => {
                if !valid_pre(label@) {
                    Err(BumpError::InvalidPrereleaseLabel)
                } else {
                    finish((v.major, v.minor, v.patch), next_pre(v.pre, label@), build)
                }
            },
        },
        Part::Unspecified => arbitrary(),
    }
}

/// Attaches build metadata to a computed core, or reports it malformed.
pub open spec fn finish(core: (u64, u64, u64), pre: Seq<char>, build: Option<Seq<char>>) -> Result<
    VersionView,
    BumpError,
> {
    if !build_ok(build) {
        Err(BumpError::InvalidBuildMetadata)
    } else {
        Ok(
            VersionView {
                major: core.0,
                minor: core.1,
                patch: core.2,
                pre: pre,
                build: build_text(build),
            },
        )
    }
}

/// Splits a pre-release string into its label and, when the second
/// dot-separated segment is numeric, its counter.
pub fn parse_prerelease(s: &str) -> (r: (Option<String>, Option<u64>))
    ensures
        r.0 matches Some(l) && l@ == pre_label(s@),
        r.1 == counter_of(s@),
{
    let n: usize = s.unicode_len();
    let i = find_char_in(s, '.', n);
    proof {
        lemma_find_char(s@, '.');
    }
    if i >= n {
        proof {
            assert(s@.take(i as int) =~= s@);
        }
        (Some(String::from_str(s)), None)
    } else {
        let lab = s.substring_char(0, i);
        let rest = s.substring_char(i + 1, n);
        proof {
            assert(lab@ =~= s@.take(i as int));
            assert(rest@ =~= s@.skip(i as int + 1));
        }
        let j = find_char_in(rest, '.', n - i - 1);
        proof {
            lemma_find_char(rest@, '.');
        }
        let seg = rest.substring_char(0, j);
        proof {
            assert(seg@ =~= rest@.take(j as int));
        }
        let counter = parse_num_digits(seg);
        (Some(String::from_str(lab)), counter)
    }
}

/// Joins a label and a counter into a pre-release string `label.counter`.
pub fn make_prerelease(label: &str, version: u64) -> (r: String)
    ensures
        r@ == label@ + seq!['.'] + u64_text(version as nat),
{
    let mut out = String::from_str(label);
    push_char(&mut out, '.');
    proof {
        assert(label@.push('.') =~= label@ + seq!['.']);
    }
    push_u64(&mut out, version);
    proof {
        assert((label@ + seq!['.']) + u64_text(version as nat) =~= label@ + seq!['.'] + u64_text(
            version as nat,
        ));
    }
    out
}

/// Bumps `part` of version `v` and attaches `build` as build metadata.
///
/// The result is exactly `spec_bump` of the inputs. Arithmetic overflow of
/// a version number or of a pre-release counter is a caller error and is
/// excluded up front.
pub fn bump(v: &Version, part: &Part, build: Option<String>) -> (r: Result<Version, BumpError>)
    requires
        !(*part matches Part::Unspecified),
        *part matches Part::Major ==> v.major < u64::MAX,
        *part matches Part::Minor ==> v.minor < u64::MAX,
        *part matches Part::Patch ==> v.patch < u64::MAX,
        *part matches Part::Prerelease(Some(l)) ==> (counter_of(v.pre@) matches Some(n) ==> (
        pre_label(v.pre@) != l@ || n < u64::MAX)),
    ensures
        r is Ok <==> spec_bump(v@, *part, build.deep_view()) is Ok,
        r matches Ok(nv) ==> nv@ == spec_bump(v@, *part, build.deep_view())->Ok_0,
        r matches Err(e) ==> e == spec_bump(v@, *part, build.deep_view())->Err_0,
{
    let core: Version = match part {
        Part::Major => Version::new(v.major + 1, 0, 0),
        Part::Minor => Version::new(v.major, v.minor + 1, 0),
        Part::Patch => Version::new(v.major, v.minor, v.patch + 1),
        Part::Prerelease(opt) => match opt {
            None => {
                if v.pre.unicode_len() == 0 {
                    return Err(BumpError::NoPrereleaseToRemove);
                }
                Version::new(v.major, v.minor, v.patch)
            },
            Some(label) => {
                if !check_dotted(label.as_str(), true) {
                    return Err(BumpError::InvalidPrereleaseLabel);
                }
                let new_pre = next_prerelease(&v.pre, label);
                Version {
                    major: v.major,
                    minor: v.minor,
                    patch: v.patch,
                    pre: new_pre,
                    build: String::new(),
                }
            },
        },
        Part::Unspecified => unreached(),
    };
    let vb: String = match build {
        None => String::new(),
        Some(b) => {
            if !check_dotted(b.as_str(), false) {
                return Err(BumpError::InvalidBuildMetadata);
            }
            b
        },
    };
    let out = Version {
        major: core.major,
        minor: core.minor,
        patch: core.patch,
        pre: core.pre,
        build: vb,
    };
    proof {
        assert(out@ =~= spec_bump(v@, *part, build.deep_view())->Ok_0);
    }
    Ok(out)
}

/// The pre-release string after advancing to or within `label`.
fn next_prerelease(pre: &String, label: &String) -> (r: String)
    requires
        counter_of(pre@) matches Some(n) ==> (pre_label(pre@) != label@ || n < u64::MAX),
    ensures
        r@ == next_pre(pre@, label@),
{
    let (existing, counter) = parse_prerelease(pre.as_str());
    let same: bool = match &existing {
        Some(e) => e.eq(label),
        None => false,
    };
    if pre.unicode_len() == 0 || !same {
        label.clone()
    } else {
        match counter {
            None => make_prerelease(label.as_str(), 1),
            Some(n) => make_prerelease(label.as_str(), n + 1),
        }
    }
}

} // verus!
