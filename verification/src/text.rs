//! Character-sequence utilities shared by the version formatter, the
//! placeholder substitutor and the file rewriter.

use vstd::prelude::*;

verus! {

/// Index of the first occurrence of `c` in `s`, or `s.len()` when `c` does
/// not occur.
pub open spec fn find_char(s: Seq<char>, c: char) -> nat
    decreases s.len(),
{
    if s.len() == 0 {
        0
    } else if s[0] == c {
        0
    } else {
        1 + find_char(s.skip(1), c)
    }
}

pub proof fn lemma_find_char(s: Seq<char>, c: char)
    ensures
        find_char(s, c) <= s.len(),
        find_char(s, c) < s.len() ==> s[find_char(s, c) as int] == c,
        forall|j: int| 0 <= j < find_char(s, c) ==> s[j] != c,
    decreases s.len(),
{
    if s.len() == 0 {
    } else if s[0] == c {
    } else {
        lemma_find_char(s.skip(1), c);
        let f = find_char(s, c);
        assert(f == 1 + find_char(s.skip(1), c));
        if f < s.len() {
            assert(s.skip(1)[f - 1] == s[f as int]);
        }
        assert forall|j: int| 0 <= j < f implies s[j] != c by {
            if j > 0 {
                assert(s.skip(1)[j - 1] == s[j]);
            }
        }
    }
}

/// `find_char` returns `i` exactly when `i` is the first position holding
/// `c` (or the length, when no position holds it).
pub proof fn lemma_find_char_from_first(s: Seq<char>, c: char, i: int)
    requires
        0 <= i <= s.len(),
        forall|j: int| 0 <= j < i ==> s[j] != c,
        i < s.len() ==> s[i] == c,
    ensures
        find_char(s, c) == i,
    decreases s.len(),
{
    if s.len() == 0 {
    } else if s[0] == c {
        assert(i == 0);
    } else {
        assert(i >= 1);
        assert forall|j: int| 0 <= j < i - 1 implies s.skip(1)[j] != c by {
            assert(s.skip(1)[j] == s[j + 1]);
        }
        if i - 1 < s.skip(1).len() {
            assert(s.skip(1)[i - 1] == s[i]);
        }
        lemma_find_char_from_first(s.skip(1), c, i - 1);
    }
}

/// Finding a character past a prefix that does not hold it.
pub proof fn lemma_find_char_append(a: Seq<char>, b: Seq<char>, c: char)
    requires
        forall|j: int| 0 <= j < a.len() ==> a[j] != c,
    ensures
        find_char(a + b, c) == a.len() + find_char(b, c),
{
    lemma_find_char(b, c);
    let i = a.len() + find_char(b, c);
    assert forall|j: int| 0 <= j < i implies (a + b)[j] != c by {
        if j >= a.len() {
            assert((a + b)[j] == b[j - a.len()]);
        }
    }
    if i < (a + b).len() {
        assert((a + b)[i as int] == b[find_char(b, c) as int]);
    }
    lemma_find_char_from_first(a + b, c, i as int);
}

/// Whether `c` occurs nowhere in `s`.
pub open spec fn absent(s: Seq<char>, c: char) -> bool {
    forall|j: int| 0 <= j < s.len() ==> s[j] != c
}

pub proof fn lemma_absent_concat(a: Seq<char>, b: Seq<char>, c: char)
    requires
        absent(a, c),
        absent(b, c),
    ensures
        absent(a + b, c),
{
    assert forall|j: int| 0 <= j < (a + b).len() implies (a + b)[j] != c by {
        if j < a.len() {
            assert((a + b)[j] == a[j]);
        } else {
            assert((a + b)[j] == b[j - a.len()]);
        }
    }
}

/// A character that occurs nowhere is found at the length.
pub proof fn lemma_find_char_absent(s: Seq<char>, c: char)
    requires
        absent(s, c),
    ensures
        find_char(s, c) == s.len(),
{
    lemma_find_char_from_first(s, c, s.len() as int);
}

/// Every occurrence of `pat` in `text` replaced by `rep`, scanning left to
/// right without overlap; replaced text is not scanned again.
pub open spec fn spec_replace_all(text: Seq<char>, pat: Seq<char>, rep: Seq<char>) -> Seq<char>
    decreases text.len(),
{
    if text.len() == 0 {
        text
    } else if 1 <= pat.len() <= text.len() && text.subrange(0, pat.len() as int) == pat {
        rep + spec_replace_all(text.skip(pat.len() as int), pat, rep)
    } else {
        seq![text[0]] + spec_replace_all(text.skip(1), pat, rep)
    }
}

/// Replacing a pattern inside exactly itself yields the replacement.
pub proof fn lemma_replace_all_self(pat: Seq<char>, rep: Seq<char>)
    requires
        pat.len() >= 1,
    ensures
        spec_replace_all(pat, pat, rep) == rep,
{
    assert(pat.subrange(0, pat.len() as int) =~= pat);
    assert(pat.skip(pat.len() as int) =~= Seq::<char>::empty());
    assert(spec_replace_all(Seq::<char>::empty(), pat, rep) == Seq::<char>::empty());
    assert(rep + Seq::<char>::empty() =~= rep);
}

/// A text that nowhere holds some character of the pattern is returned
/// unchanged.
pub proof fn lemma_replace_all_absent(text: Seq<char>, pat: Seq<char>, rep: Seq<char>, c: char)
    requires
        pat.contains(c),
        forall|j: int| 0 <= j < text.len() ==> text[j] != c,
    ensures
        spec_replace_all(text, pat, rep) == text,
    decreases text.len(),
{
    if text.len() == 0 {
    } else if 1 <= pat.len() <= text.len() && text.subrange(0, pat.len() as int) == pat {
        let k = choose|k: int| 0 <= k < pat.len() && pat[k] == c;
        assert(text.subrange(0, pat.len() as int)[k] == text[k]);
        assert(false);
    } else {
        assert forall|j: int| 0 <= j < text.skip(1).len() implies text.skip(1)[j] != c by {
            assert(text.skip(1)[j] == text[j + 1]);
        }
        lemma_replace_all_absent(text.skip(1), pat, rep, c);
        assert(seq![text[0]] + text.skip(1) =~= text);
    }
}

/// Relies on `String::push`: appends exactly the one character.
#[verifier::external_body]
pub(crate) fn push_char(s: &mut String, c: char)
    ensures
        final(s)@ == old(s)@.push(c),
{
    s.push(c);
}

/// Whether `pat` stands in `text` at position `i`.
fn matches_at(text: &str, pat: &str, i: usize, m: usize, n: usize) -> (r: bool)
    requires
        m == pat@.len(),
        n == text@.len(),
        i + m <= n,
    ensures
        r == (text@.subrange(i as int, i as int + m as int) == pat@),
{
    let mut j: usize = 0;
    while j < m
        invariant
            j <= m,
            m == pat@.len(),
            n == text@.len(),
            i + m <= n,
            forall|k: int| 0 <= k < j ==> text@[i + k] == pat@[k],
        decreases m - j,
    {
        if text.get_char(i + j) != pat.get_char(j) {
            assert(text@.subrange(i as int, i as int + m as int)[j as int] == text@[i + j as int]);
            return false;
        }
        j += 1;
    }
    assert(text@.subrange(i as int, i as int + m as int) =~= pat@);
    true
}

/// Every occurrence of `pat` in `text` replaced by `rep`.
pub fn replace_all(text: &str, pat: &str, rep: &str) -> (r: String)
    requires
        1 <= pat@.len(),
    ensures
        r@ == spec_replace_all(text@, pat@, rep@),
{
    let n: usize = text.unicode_len();
    let m: usize = pat.unicode_len();
    let mut out: String = String::new();
    let mut i: usize = 0;
    proof {
        assert(text@.skip(0) =~= text@);
        assert(Seq::<char>::empty() + spec_replace_all(text@, pat@, rep@)
            =~= spec_replace_all(text@, pat@, rep@));
    }
    while i < n
        invariant
            i <= n,
            n == text@.len(),
            m == pat@.len(),
            1 <= m,
            out@ + spec_replace_all(text@.skip(i as int), pat@, rep@)
                == spec_replace_all(text@, pat@, rep@),
        decreases n - i,
    {
        let ghost prev = out@;
        let ghost rest = text@.skip(i as int);
        if m <= n - i && matches_at(text, pat, i, m, n) {
            out.append(rep);
            proof {
                assert(rest.subrange(0, m as int) =~= text@.subrange(i as int, i as int + m as int));
                assert(rest.skip(m as int) =~= text@.skip(i as int + m));
                assert(spec_replace_all(rest, pat@, rep@)
                    == rep@ + spec_replace_all(text@.skip(i as int + m), pat@, rep@));
                assert((prev + rep@) + spec_replace_all(text@.skip(i as int + m), pat@, rep@)
                    =~= prev + (rep@ + spec_replace_all(text@.skip(i as int + m), pat@, rep@)));
            }
            i += m;
        } else {
            let c = text.get_char(i);
            push_char(&mut out, c);
            proof {
                if m <= n - i {
                    assert(rest.subrange(0, m as int)
                        =~= text@.subrange(i as int, i as int + m as int));
                }
                assert(rest[0] == text@[i as int]);
                assert(rest.skip(1) =~= text@.skip(i as int + 1));
                assert(spec_replace_all(rest, pat@, rep@)
                    == seq![text@[i as int]] + spec_replace_all(text@.skip(i as int + 1), pat@, rep@));
                assert(prev.push(c) =~= prev + seq![c]);
                assert((prev + seq![c]) + spec_replace_all(text@.skip(i as int + 1), pat@, rep@)
                    =~= prev + (seq![c] + spec_replace_all(text@.skip(i as int + 1), pat@, rep@)));
            }
            i += 1;
        }
    }
    proof {
        assert(text@.skip(n as int) =~= Seq::<char>::empty());
        assert(out@ + Seq::<char>::empty() =~= out@);
    }
    out
}

} // verus!
