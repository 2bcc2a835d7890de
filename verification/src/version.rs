//! The semantic-version value type: validity of its fields, canonical text
//! form, and parsing of canonical text back into the type.

use vstd::prelude::*;

use crate::text::absent;
use crate::text::find_char;
use crate::text::lemma_absent_concat;
use crate::text::lemma_find_char;
use crate::text::lemma_find_char_absent;
use crate::text::lemma_find_char_append;
use crate::text::lemma_find_char_from_first;
use crate::text::push_char;

verus! {

/// A semantic version. `pre` and `build` hold the pre-release and
/// build-metadata strings without their leading `-` / `+`; an empty string
/// means the part is absent.
#[derive(Debug, Clone, PartialEq, Eq)]
pub struct Version {
    pub major: u64,
    pub minor: u64,
    pub patch: u64,
    pub pre: String,
    pub build: String,
}

/// Mathematical model of a `Version`.
#[verifier::ext_equal]
pub struct VersionView {
    pub major: u64,
    pub minor: u64,
    pub patch: u64,
    pub pre: Seq<char>,
    pub build: Seq<char>,
}

impl View for Version {
    type V = VersionView;

    open spec fn view(&self) -> VersionView {
        VersionView {
            major: self.major,
            minor: self.minor,
            patch: self.patch,
            pre: self.pre@,
            build: self.build@,
        }
    }
}

pub open spec fn is_digit(c: char) -> bool {
    '0' <= c && c <= '9'
}

/// The characters a pre-release or build-metadata identifier may hold.
pub open spec fn is_ident_char(c: char) -> bool {
    is_digit(c) || ('a' <= c && c <= 'z') || ('A' <= c && c <= 'Z') || c == '-'
}

pub open spec fn all_digits(s: Seq<char>) -> bool {
    forall|i: int| 0 <= i < s.len() ==> is_digit(s[i])
}

pub open spec fn all_ident_chars(s: Seq<char>) -> bool {
    forall|i: int| 0 <= i < s.len() ==> is_ident_char(s[i])
}

/// One dot-free identifier. Under `strict`, a numeric identifier may not
/// have a leading zero (the pre-release rule; build metadata is lax).
pub open spec fn valid_segment(s: Seq<char>, strict: bool) -> bool {
    &&& s.len() > 0
    &&& all_ident_chars(s)
    &&& (strict && all_digits(s) ==> s.len() == 1 || s[0] != '0')
}

/// A non-empty dot-separated sequence of valid identifiers.
pub open spec fn valid_dotted(s: Seq<char>, strict: bool) -> bool
    decreases s.len(),
{
    let i = find_char(s, '.');
    if i >= s.len() {
        valid_segment(s, strict)
    } else {
        valid_segment(s.take(i as int), strict) && valid_dotted(s.skip(i as int + 1), strict)
    }
}

/// A valid pre-release string (what may stand after `-`).
pub open spec fn valid_pre(s: Seq<char>) -> bool {
    valid_dotted(s, true)
}

/// A valid build-metadata string (what may stand after `+`).
pub open spec fn valid_build(s: Seq<char>) -> bool {
    valid_dotted(s, false)
}

impl VersionView {
    /// Field validity: pre-release and build metadata are absent or valid.
    pub open spec fn wf(self) -> bool {
        &&& self.pre.len() == 0 || valid_pre(self.pre)
        &&& self.build.len() == 0 || valid_build(self.build)
    }
}

/// Numeric value of a digit string.
pub open spec fn str_to_nat(s: Seq<char>) -> nat
    decreases s.len(),
{
    if s.len() == 0 {
        0
    } else {
        str_to_nat(s.drop_last()) * 10 + (s.last() as nat - '0' as nat) as nat
    }
}

pub open spec fn digit_char(d: nat) -> char
    recommends
        d < 10,
{
    ((('0' as u8) + (d as u8)) as u8) as char
}

/// Decimal text of a number, most significant digit first.
pub open spec fn u64_text(n: nat) -> Seq<char>
    decreases n,
{
    if n < 10 {
        seq![digit_char(n)]
    } else {
        u64_text(n / 10) + seq![digit_char(n % 10)]
    }
}

/// The canonical text form of a version:
/// `major.minor.patch`, then `-pre` when present, then `+build` when present.
pub open spec fn version_text(v: VersionView) -> Seq<char> {
    u64_text(v.major as nat) + seq!['.'] + u64_text(v.minor as nat) + seq!['.']
        + u64_text(v.patch as nat)
        + (if v.pre.len() > 0 { seq!['-'] + v.pre } else { Seq::<char>::empty() })
        + (if v.build.len() > 0 { seq!['+'] + v.build } else { Seq::<char>::empty() })
}

pub proof fn lemma_u64_text_digits(n: nat)
    ensures
        u64_text(n).len() >= 1,
        all_digits(u64_text(n)),
    decreases n,
{
    if n < 10 {
        assert(is_digit(digit_char(n)));
    } else {
        lemma_u64_text_digits(n / 10);
        assert(is_digit(digit_char(n % 10)));
        assert forall|i: int| 0 <= i < u64_text(n).len() implies is_digit(u64_text(n)[i]) by {
            if i < u64_text(n / 10).len() {
                assert(u64_text(n)[i] == u64_text(n / 10)[i]);
            }
        }
    }
}

/// Decimal text evaluates back to the number it was made from.
pub proof fn lemma_u64_text_value(n: nat)
    ensures
        str_to_nat(u64_text(n)) == n,
    decreases n,
{
    if n < 10 {
        assert(str_to_nat(Seq::<char>::empty()) == 0);
        assert(u64_text(n).drop_last() =~= Seq::<char>::empty());
        assert(u64_text(n).last() == digit_char(n));
        assert(digit_char(n) as nat == '0' as nat + n);
        assert(str_to_nat(u64_text(n)) == str_to_nat(u64_text(n).drop_last()) * 10 + (u64_text(
            n,
        ).last() as nat - '0' as nat) as nat);
    } else {
        lemma_u64_text_value(n / 10);
        let t = u64_text(n);
        assert(t.drop_last() =~= u64_text(n / 10));
        assert(t.last() == digit_char(n % 10));
        assert(str_to_nat(t) == str_to_nat(u64_text(n / 10)) * 10 + (digit_char(n % 10) as nat
            - '0' as nat));
        assert(digit_char(n % 10) as nat == '0' as nat + n % 10);
        assert((n / 10) * 10 + n % 10 == n) by (nonlinear_arith);
    }
}

/// Only digits stand in decimal text, so any non-digit is absent from it.
pub proof fn lemma_u64_text_absent(n: nat, c: char)
    requires
        !is_digit(c),
    ensures
        absent(u64_text(n), c),
{
    lemma_u64_text_digits(n);
    assert forall|j: int| 0 <= j < u64_text(n).len() implies u64_text(n)[j] != c by {
        assert(is_digit(u64_text(n)[j]));
    }
}

/// Every character of a valid dotted identifier list is an identifier
/// character or a dot.
pub proof fn lemma_valid_dotted_chars(s: Seq<char>, strict: bool)
    requires
        valid_dotted(s, strict),
    ensures
        forall|j: int| 0 <= j < s.len() ==> (is_ident_char(s[j]) || s[j] == '.'),
    decreases s.len(),
{
    let i = find_char(s, '.');
    lemma_find_char(s, '.');
    if i >= s.len() {
    } else {
        lemma_valid_dotted_chars(s.skip(i as int + 1), strict);
        assert forall|j: int| 0 <= j < s.len() implies (is_ident_char(s[j]) || s[j] == '.') by {
            if j < i {
                assert(s.take(i as int)[j] == s[j]);
                assert(is_ident_char(s.take(i as int)[j]));
            } else if j == i {
            } else {
                assert(s.skip(i as int + 1)[j - i - 1] == s[j]);
            }
        }
    }
}

/// A character that is neither an identifier character nor a dot is absent
/// from a valid dotted identifier list.
pub proof fn lemma_valid_dotted_absent(s: Seq<char>, strict: bool, c: char)
    requires
        valid_dotted(s, strict),
        !is_ident_char(c),
        c != '.',
    ensures
        absent(s, c),
{
    lemma_valid_dotted_chars(s, strict);
}

/// The first digit of a positive number's decimal text is not zero.
proof fn lemma_u64_text_positive_first(n: nat)
    requires
        n >= 1,
    ensures
        u64_text(n)[0] != '0',
    decreases n,
{
    if n < 10 {
        assert(digit_char(n) as nat == '0' as nat + n);
    } else {
        lemma_u64_text_positive_first(n / 10);
        assert(u64_text(n)[0] == u64_text(n / 10)[0]);
    }
}

/// Decimal text is exactly one character long for numbers under ten.
proof fn lemma_u64_text_len(n: nat)
    ensures
        n < 10 <==> u64_text(n).len() == 1,
    decreases n,
{
    if n >= 10 {
        lemma_u64_text_digits(n / 10);
    }
}

/// The decimal text of a `u64` is a valid numeric version field.
pub proof fn lemma_u64_text_valid_num(n: u64)
    ensures
        valid_num(u64_text(n as nat)),
        str_to_nat(u64_text(n as nat)) == n,
{
    lemma_u64_text_digits(n as nat);
    lemma_u64_text_value(n as nat);
    lemma_u64_text_len(n as nat);
    if u64_text(n as nat).len() > 1 {
        lemma_u64_text_positive_first(n as nat);
    }
}

/// A numeric `major` / `minor` / `patch` field: digits only, no leading
/// zero, and a value that fits in a `u64`.
pub open spec fn valid_num(s: Seq<char>) -> bool {
    &&& s.len() > 0
    &&& all_digits(s)
    &&& (s.len() > 1 ==> s[0] != '0')
    &&& str_to_nat(s) <= u64::MAX
}

/// Parse of the `major.minor.patch` core of a version string.
pub open spec fn spec_parse_core(s: Seq<char>) -> Option<(u64, u64, u64)> {
    let d1 = find_char(s, '.');
    if d1 >= s.len() {
        None
    } else {
        let ma = s.take(d1 as int);
        let rest = s.skip(d1 as int + 1);
        let d2 = find_char(rest, '.');
        if d2 >= rest.len() {
            None
        } else {
            let mi = rest.take(d2 as int);
            let pa = rest.skip(d2 as int + 1);
            if valid_num(ma) && valid_num(mi) && valid_num(pa) {
                Some(
                    (
                        str_to_nat(ma) as u64,
                        str_to_nat(mi) as u64,
                        str_to_nat(pa) as u64,
                    ),
                )
            } else {
                None
            }
        }
    }
}

/// Parse of a whole version string: build metadata after the first `+`,
/// pre-release between the first `-` and the build, the numeric core before.
pub open spec fn spec_parse_version(s: Seq<char>) -> Option<VersionView> {
    let p = find_char(s, '+');
    let head = s.take(p as int);
    let build = if p < s.len() { s.skip(p as int + 1) } else { Seq::<char>::empty() };
    let d = find_char(head, '-');
    let core = head.take(d as int);
    let pre = if d < head.len() { head.skip(d as int + 1) } else { Seq::<char>::empty() };
    match spec_parse_core(core) {
        Option::None => Option::None,
        Option::Some((ma, mi, pa)) => {
            if (p < s.len() ==> valid_build(build)) && (d < head.len() ==> valid_pre(pre)) {
                Option::Some(VersionView { major: ma, minor: mi, patch: pa, pre, build })
            } else {
                Option::None
            }
        },
    }
}

/// A longer digit string evaluates to at least what its prefix does.
pub proof fn lemma_str_to_nat_prefix_mono(s: Seq<char>, i: int, j: int)
    requires
        0 <= i <= j <= s.len(),
    ensures
        str_to_nat(s.take(i)) <= str_to_nat(s.take(j)),
    decreases j - i,
{
    if i < j {
        lemma_str_to_nat_prefix_mono(s, i, j - 1);
        assert(s.take(j).drop_last() =~= s.take(j - 1));
        assert(str_to_nat(s.take(j - 1)) * 10 >= str_to_nat(s.take(j - 1)));
    }
}

/// Index of the first occurrence of `c` in `s`, or the length when absent.
pub(crate) fn find_char_in(s: &str, c: char, n: usize) -> (r: usize)
    requires
        n == s@.len(),
    ensures
        r as nat == find_char(s@, c),
{
    let mut i: usize = 0;
    while i < n
        invariant
            i <= n,
            n == s@.len(),
            forall|j: int| 0 <= j < i ==> s@[j] != c,
        decreases n - i,
    {
        if s.get_char(i) == c {
            proof {
                lemma_find_char_from_first(s@, c, i as int);
            }
            return i;
        }
        i += 1;
    }
    proof {
        lemma_find_char_from_first(s@, c, n as int);
    }
    n
}

/// Value of a digit string, or `None` when the string is empty, holds a
/// non-digit, or does not fit in a `u64`.
pub(crate) fn parse_num_digits(s: &str) -> (r: Option<u64>)
    ensures
        r is Some <==> (s@.len() > 0 && all_digits(s@) && str_to_nat(s@) <= u64::MAX),
        r matches Some(v) ==> v as nat == str_to_nat(s@),
{
    let n: usize = s.unicode_len();
    if n == 0 {
        return None;
    }
    let mut acc: u64 = 0;
    let mut i: usize = 0;
    proof {
        assert(s@.take(0) =~= Seq::<char>::empty());
    }
    while i < n
        invariant
            i <= n,
            n == s@.len(),
            all_digits(s@.take(i as int)),
            acc as nat == str_to_nat(s@.take(i as int)),
        decreases n - i,
    {
        let c = s.get_char(i);
        if !('0' <= c && c <= '9') {
            return None;
        }
        let d: u64 = (c as u32 - '0' as u32) as u64;
        proof {
            assert(s@.take(i as int + 1).drop_last() =~= s@.take(i as int));
            assert(s@.take(i as int + 1).last() == s@[i as int]);
        }
        let step = match acc.checked_mul(10) {
            Some(p) => p.checked_add(d),
            None => None,
        };
        match step {
            Some(v) => {
                acc = v;
            },
            None => {
                proof {
                    assert(str_to_nat(s@.take(i as int + 1)) > u64::MAX);
                    lemma_str_to_nat_prefix_mono(s@, i as int + 1, n as int);
                    assert(s@.take(n as int) =~= s@);
                }
                return None;
            },
        }
        i += 1;
        proof {
            assert(all_digits(s@.take(i as int)));
        }
    }
    proof {
        assert(s@.take(n as int) =~= s@);
    }
    Some(acc)
}

/// Whether `s` is a valid dot-separated identifier list; `strict` applies
/// the pre-release rule for numeric identifiers.
pub(crate) fn check_dotted(s: &str, strict: bool) -> (r: bool)
    ensures
        r == valid_dotted(s@, strict),
    decreases s@.len(),
{
    let n: usize = s.unicode_len();
    let i = find_char_in(s, '.', n);
    proof {
        lemma_find_char(s@, '.');
    }
    if i >= n {
        proof {
            assert(s@.subrange(0, n as int) =~= s@);
        }
        check_segment(s, 0, n, strict)
    } else {
        let head = s.substring_char(0, i);
        let rest = s.substring_char(i + 1, n);
        proof {
            assert(head@ =~= s@.take(i as int));
            assert(rest@ =~= s@.skip(i as int + 1));
            assert(head@.subrange(0, i as int) =~= head@);
        }
        let head_ok = check_segment(head, 0, i, strict);
        if !head_ok {
            return false;
        }
        check_dotted(rest, strict)
    }
}

/// Whether `s[from..to]` is one valid identifier.
fn check_segment(s: &str, from: usize, to: usize, strict: bool) -> (r: bool)
    requires
        from <= to <= s@.len(),
    ensures
        r == valid_segment(s@.subrange(from as int, to as int), strict),
{
    let ghost seg = s@.subrange(from as int, to as int);
    if to == from {
        return false;
    }
    let mut i: usize = from;
    let mut digits_only: bool = true;
    while i < to
        invariant
            from <= i <= to <= s@.len(),
            seg == s@.subrange(from as int, to as int),
            forall|j: int| 0 <= j < i - from ==> is_ident_char(seg[j]),
            digits_only == all_digits(seg.take(i - from)),
        decreases to - i,
    {
        let c = s.get_char(i);
        proof {
            assert(seg[i - from] == s@[i as int]);
            assert(seg.take(i - from + 1).drop_last() =~= seg.take(i - from));
            assert(seg.take(i - from + 1).last() == seg[i - from]);
        }
        let is_dig = '0' <= c && c <= '9';
        let is_ident = is_dig || ('a' <= c && c <= 'z') || ('A' <= c && c <= 'Z') || c == '-';
        if !is_ident {
            return false;
        }
        digits_only = digits_only && is_dig;
        i += 1;
        proof {
            assert forall|j: int| 0 <= j < i - from implies is_ident_char(seg[j]) by {}
            assert(seg.take(i - from) =~= seg.take(i - from - 1).push(seg[i - from - 1]));
        }
    }
    proof {
        assert(seg.take(to - from) =~= seg);
    }
    if strict && digits_only && to - from > 1 {
        if s.get_char(from) == '0' {
            proof {
                assert(seg[0] == s@[from as int]);
            }
            return false;
        }
    }
    true
}

/// The numeric core's text parses back to exactly its three fields.
proof fn lemma_parse_core_of_text(major: u64, minor: u64, patch: u64)
    ensures
        spec_parse_core(
            u64_text(major as nat) + seq!['.'] + u64_text(minor as nat) + seq!['.'] + u64_text(
                patch as nat,
            ),
        ) == Some((major, minor, patch)),
{
    let ma = u64_text(major as nat);
    let mi = u64_text(minor as nat);
    let pa = u64_text(patch as nat);
    let core = ma + seq!['.'] + mi + seq!['.'] + pa;
    let tail1 = seq!['.'] + mi + seq!['.'] + pa;
    lemma_u64_text_valid_num(major);
    lemma_u64_text_valid_num(minor);
    lemma_u64_text_valid_num(patch);
    lemma_u64_text_absent(major as nat, '.');
    lemma_u64_text_absent(minor as nat, '.');
    assert(core =~= ma + tail1);
    assert(tail1[0] == '.');
    lemma_find_char_append(ma, tail1, '.');
    assert(find_char(core, '.') == ma.len());
    assert(core.take(ma.len() as int) =~= ma);
    let rest = core.skip(ma.len() as int + 1);
    let tail2 = seq!['.'] + pa;
    assert(rest =~= mi + tail2);
    assert(tail2[0] == '.');
    lemma_find_char_append(mi, tail2, '.');
    assert(find_char(rest, '.') == mi.len());
    assert(rest.take(mi.len() as int) =~= mi);
    assert(rest.skip(mi.len() as int + 1) =~= pa);
}

/// Parsing the canonical text of a well-formed version yields exactly that
/// version: `Version::parse` inverts `to_version_string`.
pub proof fn lemma_parse_inverts_render(v: VersionView)
    requires
        v.wf(),
    ensures
        spec_parse_version(version_text(v)) == Some(v),
{
    let ma = u64_text(v.major as nat);
    let mi = u64_text(v.minor as nat);
    let pa = u64_text(v.patch as nat);
    let core = ma + seq!['.'] + mi + seq!['.'] + pa;
    let pre_part = if v.pre.len() > 0 {
        seq!['-'] + v.pre
    } else {
        Seq::<char>::empty()
    };
    let build_part = if v.build.len() > 0 {
        seq!['+'] + v.build
    } else {
        Seq::<char>::empty()
    };
    let head = core + pre_part;
    let s = version_text(v);
    assert(s =~= head + build_part);

    // neither the numeric core nor a pre-release holds '+' or '-' / '+'
    lemma_u64_text_absent(v.major as nat, '+');
    lemma_u64_text_absent(v.minor as nat, '+');
    lemma_u64_text_absent(v.patch as nat, '+');
    lemma_u64_text_absent(v.major as nat, '-');
    lemma_u64_text_absent(v.minor as nat, '-');
    lemma_u64_text_absent(v.patch as nat, '-');
    assert(absent(seq!['.'], '+'));
    assert(absent(seq!['.'], '-'));
    lemma_absent_concat(ma, seq!['.'], '+');
    lemma_absent_concat(ma + seq!['.'], mi, '+');
    lemma_absent_concat(ma + seq!['.'] + mi, seq!['.'], '+');
    lemma_absent_concat(ma + seq!['.'] + mi + seq!['.'], pa, '+');
    lemma_absent_concat(ma, seq!['.'], '-');
    lemma_absent_concat(ma + seq!['.'], mi, '-');
    lemma_absent_concat(ma + seq!['.'] + mi, seq!['.'], '-');
    lemma_absent_concat(ma + seq!['.'] + mi + seq!['.'], pa, '-');
    assert(absent(core, '+'));
    assert(absent(core, '-'));
    if v.pre.len() > 0 {
        lemma_valid_dotted_absent(v.pre, true, '+');
        assert(absent(seq!['-'], '+'));
        lemma_absent_concat(seq!['-'], v.pre, '+');
    }
    lemma_absent_concat(core, pre_part, '+');
    assert(absent(head, '+'));

    // the '+' split recovers the head and the build metadata
    let p = find_char(s, '+');
    if v.build.len() > 0 {
        assert(build_part[0] == '+');
        lemma_find_char_append(head, build_part, '+');
        assert(p == head.len());
        assert(s.take(p as int) =~= head);
        assert(s.skip(p as int + 1) =~= v.build);
    } else {
        assert(s =~= head);
        lemma_find_char_absent(s, '+');
        assert(p == s.len());
        assert(s.take(p as int) =~= head);
    }
    let spec_head = s.take(p as int);
    assert(spec_head == head);

    // the '-' split recovers the core and the pre-release
    let d = find_char(head, '-');
    if v.pre.len() > 0 {
        assert(pre_part[0] == '-');
        lemma_find_char_append(core, pre_part, '-');
        assert(d == core.len());
        assert(head.take(d as int) =~= core);
        assert(head.skip(d as int + 1) =~= v.pre);
    } else {
        assert(head =~= core);
        lemma_find_char_absent(head, '-');
        assert(d == head.len());
        assert(head.take(d as int) =~= core);
    }

    lemma_parse_core_of_text(v.major, v.minor, v.patch);
    assert(spec_parse_version(s) matches Some(pv) && pv =~= v);
}

/// A digit string that evaluates to zero is all zeros.
proof fn lemma_str_to_nat_zero(s: Seq<char>)
    requires
        all_digits(s),
        str_to_nat(s) == 0,
    ensures
        forall|j: int| 0 <= j < s.len() ==> s[j] == '0',
    decreases s.len(),
{
    if s.len() > 0 {
        assert(is_digit(s.last()));
        assert(s.last() as nat - '0' as nat == 0);
        assert(s.last() == '0');
        assert(all_digits(s.drop_last())) by {
            assert forall|j: int| 0 <= j < s.drop_last().len() implies is_digit(
                s.drop_last()[j],
            ) by {
                assert(s.drop_last()[j] == s[j]);
            }
        }
        lemma_str_to_nat_zero(s.drop_last());
        assert forall|j: int| 0 <= j < s.len() implies s[j] == '0' by {
            if j < s.len() - 1 {
                assert(s.drop_last()[j] == s[j]);
            }
        }
    }
}

/// A valid numeric field text is exactly the decimal text of its value.
proof fn lemma_u64_text_of_valid_num(seg: Seq<char>)
    requires
        valid_num(seg),
    ensures
        u64_text(str_to_nat(seg)) == seg,
    decreases seg.len(),
{
    let v = str_to_nat(seg);
    if seg.len() == 1 {
        assert(seg.drop_last() =~= Seq::<char>::empty());
        assert(str_to_nat(Seq::<char>::empty()) == 0);
        assert(is_digit(seg[0]));
        assert(v == (seg.last() as nat - '0' as nat) as nat);
        assert(v < 10);
        assert(digit_char(v) as nat == seg[0] as nat);
        assert(digit_char(v) == seg[0]);
        assert(u64_text(v) =~= seg);
    } else {
        let pre = seg.drop_last();
        let d = (seg.last() as nat - '0' as nat) as nat;
        assert(is_digit(seg.last()));
        assert(d < 10);
        assert(v == str_to_nat(pre) * 10 + d);
        assert(all_digits(pre)) by {
            assert forall|j: int| 0 <= j < pre.len() implies is_digit(pre[j]) by {
                assert(pre[j] == seg[j]);
            }
        }
        let p = str_to_nat(pre);
        assert(p <= p * 10 + d);
        assert(pre[0] == seg[0]);
        if p == 0 {
            lemma_str_to_nat_zero(pre);
            assert(pre[0] == '0');
            assert(false);
        }
        assert(valid_num(pre));
        lemma_u64_text_of_valid_num(pre);
        assert(v >= 10);
        assert(v / 10 == p && v % 10 == d) by (nonlinear_arith)
            requires
                v == p * 10 + d,
                0 <= d < 10,
                p >= 0,
        ;
        assert(u64_text(v) == u64_text(p) + seq![digit_char(d)]);
        assert(digit_char(d) as nat == seg.last() as nat);
        assert(digit_char(d) == seg.last());
        assert(u64_text(p) + seq![digit_char(d)] =~= seg);
    }
}

/// A valid dotted identifier list is never empty.
proof fn lemma_valid_dotted_nonempty(s: Seq<char>, strict: bool)
    requires
        valid_dotted(s, strict),
    ensures
        s.len() > 0,
{
    let i = find_char(s, '.');
    if i >= s.len() {
        assert(valid_segment(s, strict));
    }
}

/// A core text that parses is the rendering of its three parsed fields.
proof fn lemma_core_text_of_parse(core: Seq<char>)
    requires
        spec_parse_core(core) is Some,
    ensures
        ({
            let (ma, mi, pa) = spec_parse_core(core)->Some_0;
            core == u64_text(ma as nat) + seq!['.'] + u64_text(mi as nat) + seq!['.'] + u64_text(
                pa as nat,
            )
        }),
{
    let d1 = find_char(core, '.');
    lemma_find_char(core, '.');
    let ma = core.take(d1 as int);
    let rest = core.skip(d1 as int + 1);
    let d2 = find_char(rest, '.');
    lemma_find_char(rest, '.');
    let mi = rest.take(d2 as int);
    let pa = rest.skip(d2 as int + 1);
    lemma_u64_text_of_valid_num(ma);
    lemma_u64_text_of_valid_num(mi);
    lemma_u64_text_of_valid_num(pa);
    assert(core =~= ma + seq![core[d1 as int]] + rest);
    assert(rest =~= mi + seq![rest[d2 as int]] + pa);
    assert(core =~= (ma + seq!['.'] + mi + seq!['.'] + pa));
}

/// Rendering the version a string parses to yields that string back:
/// `to_version_string` inverts `Version::parse`.
#[verifier::rlimit(50)]
pub proof fn lemma_render_inverts_parse(s: Seq<char>)
    requires
        spec_parse_version(s) is Some,
    ensures
        version_text(spec_parse_version(s)->Some_0) == s,
{
    let pv = spec_parse_version(s)->Some_0;
    let p = find_char(s, '+');
    lemma_find_char(s, '+');
    let head = s.take(p as int);
    let d = find_char(head, '-');
    lemma_find_char(head, '-');
    let core = head.take(d as int);

    lemma_core_text_of_parse(core);
    assert(core == u64_text(pv.major as nat) + seq!['.'] + u64_text(pv.minor as nat) + seq!['.']
        + u64_text(pv.patch as nat));

    // the pre-release part restores the head
    if d < head.len() {
        assert(pv.pre == head.skip(d as int + 1));
        lemma_valid_dotted_nonempty(pv.pre, true);
        assert(head =~= core + seq![head[d as int]] + pv.pre);
        assert(head =~= core + (seq!['-'] + pv.pre));
    } else {
        assert(pv.pre.len() == 0);
        assert(head =~= core);
    }

    // the build part restores the whole string
    if p < s.len() {
        assert(pv.build == s.skip(p as int + 1));
        lemma_valid_dotted_nonempty(pv.build, false);
        assert(s =~= head + seq![s[p as int]] + pv.build);
        assert(s =~= head + (seq!['+'] + pv.build));
    } else {
        assert(pv.build.len() == 0);
        assert(s =~= head);
    }
    assert(version_text(pv) =~= s);
}

/// Value of one numeric version field, or `None` when `s` is not a valid
/// field text.
fn parse_num(s: &str) -> (r: Option<u64>)
    ensures
        r is Some <==> valid_num(s@),
        r matches Some(v) ==> v as nat == str_to_nat(s@),
{
    let n: usize = s.unicode_len();
    if n > 1 && s.get_char(0) == '0' {
        return None;
    }
    parse_num_digits(s)
}

/// Parse of the `major.minor.patch` core.
fn parse_core(s: &str) -> (r: Option<(u64, u64, u64)>)
    ensures
        r == spec_parse_core(s@),
{
    let n: usize = s.unicode_len();
    let d1 = find_char_in(s, '.', n);
    proof {
        lemma_find_char(s@, '.');
    }
    if d1 >= n {
        return None;
    }
    let ma_s = s.substring_char(0, d1);
    let rest = s.substring_char(d1 + 1, n);
    let rn: usize = n - d1 - 1;
    proof {
        assert(ma_s@ =~= s@.take(d1 as int));
        assert(rest@ =~= s@.skip(d1 as int + 1));
    }
    let d2 = find_char_in(rest, '.', rn);
    proof {
        lemma_find_char(rest@, '.');
    }
    if d2 >= rn {
        return None;
    }
    let mi_s = rest.substring_char(0, d2);
    let pa_s = rest.substring_char(d2 + 1, rn);
    proof {
        assert(mi_s@ =~= rest@.take(d2 as int));
        assert(pa_s@ =~= rest@.skip(d2 as int + 1));
    }
    let ma = parse_num(ma_s);
    let mi = parse_num(mi_s);
    let pa = parse_num(pa_s);
    match (ma, mi, pa) {
        (Some(a), Some(b), Some(c)) => Some((a, b, c)),
        _ => None,
    }
}

impl Version {
    /// Parses the canonical text form of a version; `None` when `s` is not
    /// a valid version string.
    pub fn parse(s: &str) -> (r: Option<Version>)
        ensures
            r is Some <==> spec_parse_version(s@) is Some,
            r matches Some(v) ==> spec_parse_version(s@) == Some(v@) && v@.wf(),
    {
        let n: usize = s.unicode_len();
        let p = find_char_in(s, '+', n);
        proof {
            lemma_find_char(s@, '+');
        }
        let head = s.substring_char(0, p);
        proof {
            assert(head@ =~= s@.take(p as int));
        }
        let d = find_char_in(head, '-', p);
        proof {
            lemma_find_char(head@, '-');
        }
        let core = head.substring_char(0, d);
        proof {
            assert(core@ =~= head@.take(d as int));
        }
        let parsed = parse_core(core);
        let (major, minor, patch) = match parsed {
            Some(t) => t,
            None => {
                return None;
            },
        };
        let mut pre: String = String::new();
        if d < p {
            let pre_s = head.substring_char(d + 1, p);
            proof {
                assert(pre_s@ =~= head@.skip(d as int + 1));
            }
            if !check_dotted(pre_s, true) {
                return None;
            }
            pre = String::from_str(pre_s);
        }
        let mut build: String = String::new();
        if p < n {
            let build_s = s.substring_char(p + 1, n);
            proof {
                assert(build_s@ =~= s@.skip(p as int + 1));
            }
            if !check_dotted(build_s, false) {
                return None;
            }
            build = String::from_str(build_s);
        }
        let v = Version { major, minor, patch, pre, build };
        proof {
            let sv = spec_parse_version(s@)->Some_0;
            assert(v@ =~= sv);
        }
        Some(v)
    }
}

/// Appends the decimal text of `n` to `out`.
pub(crate) fn push_u64(out: &mut String, n: u64)
    ensures
        final(out)@ == old(out)@ + u64_text(n as nat),
    decreases n,
{
    if n < 10 {
        let d: u8 = ('0' as u8) + (n as u8);
        push_char(out, d as char);
        proof {
            assert(old(out)@.push(digit_char(n as nat)) =~= old(out)@ + u64_text(n as nat));
        }
    } else {
        push_u64(out, n / 10);
        let ghost mid = out@;
        let d: u8 = ('0' as u8) + ((n % 10) as u8);
        push_char(out, d as char);
        proof {
            assert(mid.push(digit_char((n % 10) as nat)) =~= mid + seq![digit_char((n % 10) as nat)]);
            assert((old(out)@ + u64_text(n as nat / 10)) + seq![digit_char((n % 10) as nat)]
                =~= old(out)@ + (u64_text(n as nat / 10) + seq![digit_char((n % 10) as nat)]));
        }
    }
}

impl Version {
    /// Builds a release version `major.minor.patch` with no pre-release and
    /// no build metadata.
    pub fn new(major: u64, minor: u64, patch: u64) -> (r: Version)
        ensures
            r@ == (VersionView {
                major,
                minor,
                patch,
                pre: Seq::<char>::empty(),
                build: Seq::<char>::empty(),
            }),
            r@.wf(),
    {
        Version { major, minor, patch, pre: String::new(), build: String::new() }
    }

    /// The canonical text form of this version.
    pub fn to_version_string(&self) -> (r: String)
        ensures
            r@ == version_text(self@),
    {
        let mut out = String::new();
        push_u64(&mut out, self.major);
        push_char(&mut out, '.');
        push_u64(&mut out, self.minor);
        push_char(&mut out, '.');
        push_u64(&mut out, self.patch);
        if self.pre.unicode_len() > 0 {
            push_char(&mut out, '-');
            out.append(self.pre.as_str());
        }
        if self.build.unicode_len() > 0 {
            push_char(&mut out, '+');
            out.append(self.build.as_str());
        }
        proof {
            assert(out@ =~= version_text(self@));
        }
        out
    }
}

} // verus!
