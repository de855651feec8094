//! Colon re-punctuation: every colon, with the whitespace on either side of
//! it, becomes a colon and one space.
use vstd::prelude::*;
use crate::chars::{is_ws, trim_end, trim_start, trimmed};

verus! {

/// Length of the run of whitespace at the start of `s`.
pub open spec fn lead_ws(s: Seq<char>) -> nat
    decreases s.len(),
{
    if s.len() > 0 && is_ws(s[0]) {
        1 + lead_ws(s.skip(1))
    } else {
        0
    }
}

/// True when `s` starts with a colon, possibly after whitespace.
pub open spec fn colon_ahead(s: Seq<char>) -> bool {
    lead_ws(s) < s.len() && s[lead_ws(s) as int] == ':'
}

/// What replacing each match of `\s*:\s*` in `s` by `": "` gives: matches
/// are found from the left, do not overlap, and take all the whitespace
/// around their colon.
pub open spec fn colon_spaced(s: Seq<char>) -> Seq<char>
    decreases s.len(),
    via colon_spaced_decreases
{
    if s.len() == 0 {
        s
    } else if colon_ahead(s) {
        seq![':', ' '] + colon_spaced(trim_start(s.skip(lead_ws(s) + 1int)))
    } else {
        seq![s[0]] + colon_spaced(s.skip(1))
    }
}

#[via_fn]
proof fn colon_spaced_decreases(s: Seq<char>) {
    if s.len() != 0 && colon_ahead(s) {
        lemma_trim_start_is_skip(s.skip(lead_ws(s) + 1int));
        lemma_lead_ws_bounds(s.skip(lead_ws(s) + 1int));
    }
}

/// Every colon of `t` is followed by exactly one space: by a space, and then
/// by the end of `t` or by a character that is not whitespace.
pub open spec fn colons_followed_by_one_space(t: Seq<char>) -> bool {
    forall|i: int|
        0 <= i < t.len() && #[trigger] t[i] == ':' ==> i + 1 < t.len() && t[i + 1] == ' ' && (i
            + 2 == t.len() || !is_ws(t[i + 2]))
}

/// No colon of `t` comes right after a whitespace character.
pub open spec fn colons_attached(t: Seq<char>) -> bool {
    forall|i: int| 0 < i < t.len() && #[trigger] t[i] == ':' ==> !is_ws(t[i - 1])
}

/// True when some colon of `s` is followed, after nothing but whitespace, by
/// another colon.
pub open spec fn has_colon_run(s: Seq<char>) -> bool {
    exists|i: int| 0 <= i < s.len() && s[i] == ':' && #[trigger] colon_ahead(s.skip(i + 1))
}

pub proof fn lemma_lead_ws_bounds(s: Seq<char>)
    ensures
        lead_ws(s) <= s.len(),
        forall|j: int| 0 <= j < lead_ws(s) ==> is_ws(#[trigger] s[j]),
        lead_ws(s) < s.len() ==> !is_ws(s[lead_ws(s) as int]),
    decreases s.len(),
{
    if s.len() > 0 && is_ws(s[0]) {
        lemma_lead_ws_bounds(s.skip(1));
        assert forall|j: int| 0 <= j < lead_ws(s) implies is_ws(#[trigger] s[j]) by {
            if j > 0 {
                assert(s[j] == s.skip(1)[j - 1]);
            }
        }
    }
}

pub proof fn lemma_trim_start_is_skip(s: Seq<char>)
    ensures
        trim_start(s) == s.skip(lead_ws(s) as int),
    decreases s.len(),
{
    if s.len() > 0 && is_ws(s[0]) {
        lemma_trim_start_is_skip(s.skip(1));
        lemma_lead_ws_bounds(s.skip(1));
        assert(s.skip(1).skip(lead_ws(s.skip(1)) as int) =~= s.skip(lead_ws(s) as int));
    } else {
        assert(s.skip(0) =~= s);
    }
}

proof fn lemma_lead_ws_cons(c: char, v: Seq<char>)
    ensures
        lead_ws(seq![c] + v) == if is_ws(c) {
            1 + lead_ws(v)
        } else {
            0
        },
{
    assert((seq![c] + v).skip(1) =~= v);
}

/// A text that does not start with whitespace gives a result that does not.
proof fn lemma_first_not_ws(r: Seq<char>)
    requires
        r.len() == 0 || !is_ws(r[0]),
    ensures
        colon_spaced(r).len() == 0 || !is_ws(colon_spaced(r)[0]),
        colon_spaced(r).len() > 0 && colon_spaced(r)[0] == ':' ==> colon_ahead(r),
{
}

/// A text with no colon ahead keeps its leading whitespace run, with no colon
/// after it.
proof fn lemma_no_colon_ahead_kept(s: Seq<char>)
    requires
        !colon_ahead(s),
    ensures
        lead_ws(colon_spaced(s)) == lead_ws(s),
        !colon_ahead(colon_spaced(s)),
    decreases s.len(),
{
    if s.len() > 0 {
        let s1 = s.skip(1);
        let u = colon_spaced(s);
        assert(u == seq![s[0]] + colon_spaced(s1));
        lemma_lead_ws_cons(s[0], colon_spaced(s1));
        if is_ws(s[0]) {
            assert(lead_ws(s) == 1 + lead_ws(s1));
            if lead_ws(s1) < s1.len() {
                assert(s1[lead_ws(s1) as int] == s[lead_ws(s) as int]);
            }
            lemma_no_colon_ahead_kept(s1);
            if lead_ws(u) < u.len() {
                assert(u[lead_ws(u) as int] == colon_spaced(s1)[lead_ws(s1) as int]);
            }
        }
    }
}

/// Stripping the whitespace after a ": " leaves what followed it.
proof fn lemma_after_inserted_space(r: Seq<char>)
    requires
        r.len() == 0 || !is_ws(r[0]),
    ensures
        trim_start((seq![':', ' '] + colon_spaced(r)).skip(1)) == colon_spaced(r),
{
    let v = colon_spaced(r);
    lemma_first_not_ws(r);
    assert((seq![':', ' '] + v).skip(1) =~= seq![' '] + v);
    assert((seq![' '] + v).skip(1) =~= v);
    assert(is_ws((seq![' '] + v)[0]));
    assert(trim_start(seq![' '] + v) == trim_start(v));
    assert(trim_start(v) == v);
}

proof fn lemma_rest_after_colon(s: Seq<char>)
    requires
        colon_ahead(s),
    ensures
        trim_start(s.skip(lead_ws(s) + 1int)).len() < s.len(),
        ({
            let r = trim_start(s.skip(lead_ws(s) + 1int));
            r.len() == 0 || !is_ws(r[0])
        }),
{
    let t = s.skip(lead_ws(s) + 1int);
    lemma_trim_start_is_skip(t);
    lemma_lead_ws_bounds(t);
    lemma_lead_ws_bounds(s);
}

/// Re-punctuating already re-punctuated text changes nothing.
pub proof fn lemma_colon_spacing_idempotent(s: Seq<char>)
    ensures
        colon_spaced(colon_spaced(s)) == colon_spaced(s),
    decreases s.len(),
{
    if s.len() > 0 {
        let u = colon_spaced(s);
        if colon_ahead(s) {
            let r = trim_start(s.skip(lead_ws(s) + 1int));
            lemma_rest_after_colon(s);
            lemma_colon_spacing_idempotent(r);
            lemma_lead_ws_cons(':', seq![' '] + colon_spaced(r));
            assert(seq![':', ' '] + colon_spaced(r) =~= seq![':'] + (seq![' '] + colon_spaced(r)));
            assert(colon_ahead(u));
            lemma_after_inserted_space(r);
        } else {
            lemma_colon_spacing_idempotent(s.skip(1));
            lemma_no_colon_ahead_kept(s);
            assert(u.skip(1) =~= colon_spaced(s.skip(1)));
        }
    }
}

/// In re-punctuated text every colon is followed by exactly one space.
pub proof fn lemma_colon_followed_by_one_space(s: Seq<char>)
    ensures
        colons_followed_by_one_space(colon_spaced(s)),
    decreases s.len(),
{
    if s.len() > 0 {
        let u = colon_spaced(s);
        if colon_ahead(s) {
            let r = trim_start(s.skip(lead_ws(s) + 1int));
            lemma_rest_after_colon(s);
            lemma_colon_followed_by_one_space(r);
            lemma_first_not_ws(r);
            let v = colon_spaced(r);
            assert forall|i: int| 0 <= i < u.len() && #[trigger] u[i] == ':' implies i + 1 < u.len()
                && u[i + 1] == ' ' && (i + 2 == u.len() || !is_ws(u[i + 2])) by {
                if i >= 2 {
                    assert(u[i] == v[i - 2]);
                }
            }
        } else {
            let v = colon_spaced(s.skip(1));
            lemma_colon_followed_by_one_space(s.skip(1));
            lemma_lead_ws_bounds(s);
            assert forall|i: int| 0 <= i < u.len() && #[trigger] u[i] == ':' implies i + 1 < u.len()
                && u[i + 1] == ' ' && (i + 2 == u.len() || !is_ws(u[i + 2])) by {
                if i >= 1 {
                    assert(u[i] == v[i - 1]);
                }
            }
        }
    }
}

proof fn lemma_colon_run_suffix(s: Seq<char>, m: int)
    requires
        0 <= m <= s.len(),
        has_colon_run(s.skip(m)),
    ensures
        has_colon_run(s),
{
    let t = s.skip(m);
    let i = choose|i: int| 0 <= i < t.len() && t[i] == ':' && #[trigger] colon_ahead(t.skip(i + 1));
    assert(t.skip(i + 1) =~= s.skip(m + i + 1));
    assert(s[m + i] == ':');
    assert(colon_ahead(s.skip(m + i + 1)));
}

/// In re-punctuated text no colon follows whitespace, unless two colons of
/// the source stood with nothing but whitespace between them.
pub proof fn lemma_colon_attached(s: Seq<char>)
    requires
        !has_colon_run(s),
    ensures
        colons_attached(colon_spaced(s)),
    decreases s.len(),
{
    if s.len() > 0 {
        let u = colon_spaced(s);
        lemma_lead_ws_bounds(s);
        if colon_ahead(s) {
            let k = lead_ws(s) as int;
            let t = s.skip(k + 1);
            let r = trim_start(t);
            lemma_rest_after_colon(s);
            lemma_trim_start_is_skip(t);
            lemma_lead_ws_bounds(t);
            if has_colon_run(r) {
                assert(r =~= s.skip(k + 1 + lead_ws(t)));
                lemma_colon_run_suffix(s, k + 1 + lead_ws(t));
            }
            lemma_colon_attached(r);
            lemma_first_not_ws(r);
            let v = colon_spaced(r);
            if v.len() > 0 && v[0] == ':' {
                assert(colon_ahead(r));
                lemma_lead_ws_bounds(r);
                assert(lead_ws(r) == 0);
                assert(colon_ahead(t)) by {
                    assert(t[lead_ws(t) as int] == r[0]);
                }
                assert(s[k] == ':' && colon_ahead(s.skip(k + 1)));
            }
            assert forall|i: int| 0 < i < u.len() && #[trigger] u[i] == ':' implies !is_ws(
                u[i - 1],
            ) by {
                if i >= 3 {
                    assert(u[i] == v[i - 2]);
                    assert(u[i - 1] == v[i - 3]);
                }
            }
        } else {
            let s1 = s.skip(1);
            let v = colon_spaced(s1);
            if has_colon_run(s1) {
                lemma_colon_run_suffix(s, 1);
            }
            lemma_colon_attached(s1);
            if v.len() > 0 && v[0] == ':' && is_ws(s[0]) {
                lemma_lead_ws_bounds(s1);
                if !colon_ahead(s1) {
                    lemma_no_colon_ahead_kept(s1);
                    lemma_lead_ws_bounds(v);
                }
                assert(lead_ws(s) == 1 + lead_ws(s1));
                assert(s1[lead_ws(s1) as int] == s[lead_ws(s) as int]);
            }
            assert forall|i: int| 0 < i < u.len() && #[trigger] u[i] == ':' implies !is_ws(
                u[i - 1],
            ) by {
                if i >= 2 {
                    assert(u[i] == v[i - 1]);
                    assert(u[i - 1] == v[i - 2]);
                }
            }
        }
    }
}

/// Re-punctuated, then trimmed.
pub open spec fn tidy(t: Seq<char>) -> Seq<char> {
    trimmed(colon_spaced(t))
}

/// Every colon of `t` is its last character or is followed by exactly one
/// space.
pub open spec fn colons_spaced_or_last(t: Seq<char>) -> bool {
    forall|i: int|
        0 <= i < t.len() && #[trigger] t[i] == ':' ==> i + 1 == t.len() || (t[i + 1] == ' ' && (i
            + 2 == t.len() || !is_ws(t[i + 2])))
}

/// `t` neither begins nor ends with whitespace, and every colon of it is its
/// last character or is followed by exactly one space.
pub open spec fn well_punctuated(t: Seq<char>) -> bool {
    &&& t.len() == 0 || (!is_ws(t[0]) && !is_ws(t.last()))
    &&& colons_spaced_or_last(t)
}

proof fn lemma_trim_end_is_take(y: Seq<char>) -> (k: int)
    ensures
        0 <= k <= y.len(),
        trim_end(y) == y.take(k),
        k > 0 ==> !is_ws(y[k - 1]),
    decreases y.len(),
{
    if y.len() > 0 && is_ws(y.last()) {
        let k = lemma_trim_end_is_take(y.drop_last());
        assert(y.drop_last().take(k) =~= y.take(k));
        if k > 0 {
            assert(y.drop_last()[k - 1] == y[k - 1]);
        }
        k
    } else {
        assert(y.take(y.len() as int) =~= y);
        y.len() as int
    }
}

/// A trimmed text is a stretch of the text that begins and ends with a
/// character other than whitespace.
pub proof fn lemma_trimmed_range(u: Seq<char>) -> (ab: (int, int))
    ensures
        0 <= ab.0 <= ab.1 <= u.len(),
        trimmed(u) == u.subrange(ab.0, ab.1),
        ab.0 < ab.1 ==> !is_ws(u[ab.0]) && !is_ws(u[ab.1 - 1]),
{
    lemma_trim_start_is_skip(u);
    lemma_lead_ws_bounds(u);
    let a = lead_ws(u) as int;
    let y = u.skip(a);
    let k = lemma_trim_end_is_take(y);
    assert(y.take(k) =~= u.subrange(a, a + k));
    if k > 0 {
        assert(y[0] == u[a]);
        assert(y[k - 1] == u[a + k - 1]);
    }
    (a, a + k)
}

/// Tidied text is well punctuated; and, unless two colons of the source
/// stood with nothing but whitespace between them, no colon of it comes
/// after whitespace.
pub proof fn lemma_tidy(t: Seq<char>)
    ensures
        well_punctuated(tidy(t)),
        !has_colon_run(t) ==> colons_attached(tidy(t)),
{
    let u = colon_spaced(t);
    lemma_colon_followed_by_one_space(t);
    let (a, b) = lemma_trimmed_range(u);
    let v = tidy(t);
    if a < b {
        assert(v[0] == u[a]);
        assert(v.last() == u[b - 1]);
    }
    assert forall|i: int| 0 <= i < v.len() && #[trigger] v[i] == ':' implies i + 1 == v.len() || (
    v[i + 1] == ' ' && (i + 2 == v.len() || !is_ws(v[i + 2]))) by {
        assert(v[i] == u[a + i]);
        if i + 1 < v.len() {
            assert(v[i + 1] == u[a + i + 1]);
            if i + 2 < v.len() {
                assert(v[i + 2] == u[a + i + 2]);
            }
        }
    }
    if !has_colon_run(t) {
        lemma_colon_attached(t);
        assert forall|i: int| 0 < i < v.len() && #[trigger] v[i] == ':' implies !is_ws(v[i - 1]) by {
            assert(v[i] == u[a + i]);
            assert(v[i - 1] == u[a + i - 1]);
        }
    }
}

/// Relies on regex's `Regex::new` and `Regex::replace_all`. The pattern
/// `\s*:\s*` is valid, so building it does not fail. `replace_all` replaces
/// the leftmost matches, which do not overlap and whose repetitions are
/// greedy, by the literal `": "` (it holds no `$`); `\s` is Unicode
/// `White_Space`, the set of `is_ws`.
#[verifier::external_body]
fn replace_colon_runs(text: &str) -> (r: String)
    ensures
        r@ == colon_spaced(text@),
{
    regex::Regex::new(r"\s*:\s*").unwrap().replace_all(text, ": ").into_owned()
}

/// `text` with every colon, together with the whitespace on either side of
/// it, replaced by a colon and one space.
pub fn fix_colon_spacing(text: &str) -> (r: String)
    ensures
        r@ == colon_spaced(text@),
{
    replace_colon_runs(text)
}

} // verus!
