//! Laws of the version-transition engine and the placeholder substitutor,
//! stated over the same spec functions the executable contracts use.

use vstd::prelude::*;

use crate::bump::build_text;
use crate::bump::counter_of;
use crate::bump::next_pre;
use crate::bump::pre_label;
use crate::bump::spec_bump;
use crate::bump::BumpError;
use crate::bump::Part;
use crate::render::current_token;
use crate::render::new_token;
use crate::render::spec_render;
use crate::render::Placeholders;
use crate::text::absent;
use crate::text::find_char;
use crate::text::lemma_absent_concat;
use crate::text::lemma_find_char;
use crate::text::lemma_find_char_append;
use crate::text::lemma_find_char_from_first;
use crate::text::lemma_replace_all_absent;
use crate::text::lemma_replace_all_self;
use crate::text::spec_replace_all;
use crate::version::is_digit;
use crate::version::lemma_u64_text_absent;
use crate::version::lemma_u64_text_digits;
use crate::version::lemma_u64_text_value;
use crate::version::lemma_valid_dotted_absent;
use crate::version::str_to_nat;
use crate::version::u64_text;
use crate::version::version_text;
use crate::version::VersionView;

verus! {

/// Law: bumping major, minor or patch clears any pre-release.
pub proof fn lemma_bump_clears_prerelease(v: VersionView, part: Part, build: Option<Seq<char>>)
    requires
        part matches Part::Major || part matches Part::Minor || part matches Part::Patch,
        spec_bump(v, part, build) is Ok,
    ensures
        spec_bump(v, part, build)->Ok_0.pre.len() == 0,
{
}

/// Law: removing the pre-release also leaves none behind.
pub proof fn lemma_release_clears_prerelease(v: VersionView, build: Option<Seq<char>>)
    requires
        spec_bump(v, Part::Prerelease(None), build) is Ok,
    ensures
        spec_bump(v, Part::Prerelease(None), build)->Ok_0.pre.len() == 0,
{
}

/// Law: removing the pre-release of a version that has none is a hard
/// error, whatever build metadata is supplied.
pub proof fn lemma_release_removal_hard_error(v: VersionView, build: Option<Seq<char>>)
    requires
        v.pre.len() == 0,
    ensures
        spec_bump(v, Part::Prerelease(None), build) == Err::<VersionView, BumpError>(
            BumpError::NoPrereleaseToRemove,
        ),
{
}

/// Law: a successful bump carries exactly the supplied build metadata:
/// none when none was supplied — never the input's — and the supplied
/// text verbatim otherwise.
pub proof fn lemma_build_metadata_exact(v: VersionView, part: Part, build: Option<Seq<char>>)
    requires
        !(part matches Part::Unspecified),
        spec_bump(v, part, build) is Ok,
    ensures
        spec_bump(v, part, build)->Ok_0.build == build_text(build),
{
}

/// The label half of a pre-release string never holds a dot.
pub proof fn lemma_pre_label_no_dot(s: Seq<char>)
    ensures
        forall|j: int| 0 <= j < pre_label(s).len() ==> pre_label(s)[j] != '.',
{
    lemma_find_char(s, '.');
    assert forall|j: int| 0 <= j < pre_label(s).len() implies pre_label(s)[j] != '.' by {
        assert(pre_label(s)[j] == s[j]);
    }
}

/// A pre-release string built as `label.counter` splits back into exactly
/// that label and that counter.
pub proof fn lemma_label_counter_roundtrip(label: Seq<char>, m: u64)
    requires
        forall|j: int| 0 <= j < label.len() ==> label[j] != '.',
    ensures
        pre_label(label + seq!['.'] + u64_text(m as nat)) == label,
        counter_of(label + seq!['.'] + u64_text(m as nat)) == Some(m),
{
    let tail = seq!['.'] + u64_text(m as nat);
    let s = label + seq!['.'] + u64_text(m as nat);
    lemma_u64_text_digits(m as nat);
    lemma_u64_text_value(m as nat);
    assert(s =~= label + tail);
    assert(tail[0] == '.');
    lemma_find_char_append(label, tail, '.');
    assert(find_char(s, '.') == label.len());
    assert(pre_label(s) =~= label);
    let rest = s.skip(label.len() as int + 1);
    assert(rest =~= u64_text(m as nat));
    assert forall|j: int| 0 <= j < rest.len() implies rest[j] != '.' by {
        assert(is_digit(rest[j]));
    }
    lemma_find_char_from_first(rest, '.', rest.len() as int);
    assert(rest.take(rest.len() as int) =~= rest);
    assert(str_to_nat(u64_text(m as nat)) == m as nat);
}

/// Law: bumping the pre-release under its existing label advances the
/// counter from `n` to `n + 1`, under the same label.
pub proof fn lemma_prerelease_counter_monotonic(
    v: VersionView,
    label: String,
    build: Option<Seq<char>>,
    n: u64,
)
    requires
        v.pre.len() > 0,
        pre_label(v.pre) == label@,
        counter_of(v.pre) == Some(n),
        n < u64::MAX,
        spec_bump(v, Part::Prerelease(Some(label)), build) is Ok,
    ensures
        ({
            let res = spec_bump(v, Part::Prerelease(Some(label)), build)->Ok_0;
            &&& pre_label(res.pre) == label@
            &&& counter_of(res.pre) == Some((n + 1) as u64)
        }),
{
    lemma_pre_label_no_dot(v.pre);
    assert(next_pre(v.pre, label@) == label@ + seq!['.'] + u64_text((n + 1) as nat));
    lemma_label_counter_roundtrip(label@, (n + 1) as u64);
}

/// Law: bumping the pre-release under its existing label when no counter
/// is present starts the counter at 1.
pub proof fn lemma_prerelease_counter_started(
    v: VersionView,
    label: String,
    build: Option<Seq<char>>,
)
    requires
        v.pre.len() > 0,
        pre_label(v.pre) == label@,
        counter_of(v.pre) is None,
        spec_bump(v, Part::Prerelease(Some(label)), build) is Ok,
    ensures
        ({
            let res = spec_bump(v, Part::Prerelease(Some(label)), build)->Ok_0;
            &&& pre_label(res.pre) == label@
            &&& counter_of(res.pre) == Some(1u64)
        }),
{
    lemma_pre_label_no_dot(v.pre);
    assert(next_pre(v.pre, label@) == label@ + seq!['.'] + u64_text(1));
    lemma_label_counter_roundtrip(label@, 1u64);
}

/// Law: switching to a different pre-release label (or adding one to a
/// release version) resets: the new pre-release is the label alone.
pub proof fn lemma_prerelease_label_switch(
    v: VersionView,
    label: String,
    build: Option<Seq<char>>,
)
    requires
        v.pre.len() == 0 || pre_label(v.pre) != label@,
        spec_bump(v, Part::Prerelease(Some(label)), build) is Ok,
    ensures
        spec_bump(v, Part::Prerelease(Some(label)), build)->Ok_0.pre == label@,
{
}

/// The canonical text of a well-formed version holds no brace, so
/// placeholder tokens never occur in it.
pub proof fn lemma_version_text_no_brace(v: VersionView)
    requires
        v.wf(),
    ensures
        absent(version_text(v), '{'),
{
    lemma_u64_text_absent(v.major as nat, '{');
    lemma_u64_text_absent(v.minor as nat, '{');
    lemma_u64_text_absent(v.patch as nat, '{');
    assert(absent(seq!['.'], '{'));
    let pre_part = if v.pre.len() > 0 {
        seq!['-'] + v.pre
    } else {
        Seq::<char>::empty()
    };
    let build_part = if v.build.len() > 0 {
        seq!['+'] + v.build
    } else {
        Seq::<char>::empty()
    };
    if v.pre.len() > 0 {
        lemma_valid_dotted_absent(v.pre, true, '{');
        lemma_absent_concat(seq!['-'], v.pre, '{');
    }
    if v.build.len() > 0 {
        lemma_valid_dotted_absent(v.build, false, '{');
        lemma_absent_concat(seq!['+'], v.build, '{');
    }
    lemma_absent_concat(u64_text(v.major as nat), seq!['.'], '{');
    lemma_absent_concat(u64_text(v.major as nat) + seq!['.'], u64_text(v.minor as nat), '{');
    lemma_absent_concat(
        u64_text(v.major as nat) + seq!['.'] + u64_text(v.minor as nat),
        seq!['.'],
        '{',
    );
    lemma_absent_concat(
        u64_text(v.major as nat) + seq!['.'] + u64_text(v.minor as nat) + seq!['.'],
        u64_text(v.patch as nat),
        '{',
    );
    lemma_absent_concat(
        u64_text(v.major as nat) + seq!['.'] + u64_text(v.minor as nat) + seq!['.'] + u64_text(
            v.patch as nat,
        ),
        pre_part,
        '{',
    );
    lemma_absent_concat(
        u64_text(v.major as nat) + seq!['.'] + u64_text(v.minor as nat) + seq!['.'] + u64_text(
            v.patch as nat,
        ) + pre_part,
        build_part,
        '{',
    );
}

/// A pattern longer than the text cannot occur in it.
proof fn lemma_replace_all_short(text: Seq<char>, pat: Seq<char>, rep: Seq<char>)
    requires
        text.len() < pat.len(),
    ensures
        spec_replace_all(text, pat, rep) == text,
    decreases text.len(),
{
    if text.len() == 0 {
    } else {
        lemma_replace_all_short(text.skip(1), pat, rep);
        assert(seq![text[0]] + text.skip(1) =~= text);
    }
}

/// Law: rendering the lone `{current_version}` token yields exactly the
/// current version's text.
pub proof fn lemma_render_current_round_trip(ph: Placeholders)
    requires
        ph.wf(),
    ensures
        spec_render(current_token(), ph.current_text(), ph.new_text()) == ph.current_text(),
{
    reveal_strlit("{current_version}");
    reveal_strlit("{new_version}");
    lemma_replace_all_self(current_token(), ph.current_text());
    lemma_version_text_no_brace(ph.current_version@);
    assert(new_token()[0] == '{');
    assert(new_token().contains('{'));
    lemma_replace_all_absent(ph.current_text(), new_token(), ph.new_text(), '{');
}

/// Law: rendering the lone `{new_version}` token yields exactly the new
/// version's text.
pub proof fn lemma_render_new_round_trip(ph: Placeholders)
    requires
        ph.wf(),
    ensures
        spec_render(new_token(), ph.current_text(), ph.new_text()) == ph.new_text(),
{
    reveal_strlit("{current_version}");
    reveal_strlit("{new_version}");
    lemma_replace_all_short(new_token(), current_token(), ph.current_text());
    lemma_replace_all_self(new_token(), ph.new_text());
}

} // verus!
