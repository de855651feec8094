//! Character-level text operations: whitespace, trimming, removal of a
//! literal pattern, and joining with a single space.
use vstd::prelude::*;

verus! {

/// Unicode `White_Space`: the characters that `char::is_whitespace` accepts.
pub open spec fn is_ws(c: char) -> bool {
    let u = c as u32;
    (0x09 <= u && u <= 0x0D) || u == 0x20 || u == 0x85 || u == 0xA0 || u == 0x1680 || (0x2000
        <= u && u <= 0x200A) || u == 0x2028 || u == 0x2029 || u == 0x202F || u == 0x205F || u
        == 0x3000
}

/// True when `s` holds at least one character that is not whitespace.
pub open spec fn has_content(s: Seq<char>) -> bool {
    exists|i: int| 0 <= i < s.len() && !is_ws(#[trigger] s[i])
}

/// `s` without its leading whitespace.
pub open spec fn trim_start(s: Seq<char>) -> Seq<char>
    decreases s.len(),
{
    if s.len() > 0 && is_ws(s[0]) {
        trim_start(s.skip(1))
    } else {
        s
    }
}

/// `s` without its trailing whitespace.
pub open spec fn trim_end(s: Seq<char>) -> Seq<char>
    decreases s.len(),
{
    if s.len() > 0 && is_ws(s.last()) {
        trim_end(s.drop_last())
    } else {
        s
    }
}

/// `s` without leading and trailing whitespace.
pub open spec fn trimmed(s: Seq<char>) -> Seq<char> {
    trim_end(trim_start(s))
}

/// True when `pat` occurs in `s` at position `i`.
pub open spec fn occurs_at(s: Seq<char>, pat: Seq<char>, i: int) -> bool {
    0 <= i && i + pat.len() <= s.len() && s.subrange(i, i + pat.len()) == pat
}

/// True when `pat` occurs anywhere in `s`.
pub open spec fn contains(s: Seq<char>, pat: Seq<char>) -> bool {
    exists|i: int| occurs_at(s, pat, i)
}

/// `s` with every occurrence of `pat` taken out, scanning from the left and
/// never letting two removed occurrences overlap.
pub open spec fn removed(s: Seq<char>, pat: Seq<char>) -> Seq<char>
    decreases s.len(),
{
    if s.len() == 0 {
        s
    } else if pat.len() > 0 && occurs_at(s, pat, 0) {
        removed(s.skip(pat.len() as int), pat)
    } else {
        seq![s[0]] + removed(s.skip(1), pat)
    }
}

/// The character views of a sequence of strings.
pub open spec fn views(v: Seq<String>) -> Seq<Seq<char>> {
    v.map_values(|p: String| p@)
}

/// The parts, in order, with one space between neighbours.
pub open spec fn joined(parts: Seq<Seq<char>>) -> Seq<char>
    decreases parts.len(),
{
    if parts.len() == 0 {
        Seq::empty()
    } else if parts.len() == 1 {
        parts[0]
    } else {
        joined(parts.drop_last()) + seq![' '] + parts.last()
    }
}

/// Whether `c` is a whitespace character.
pub fn is_whitespace(c: char) -> (r: bool)
    ensures
        r == is_ws(c),
{
    let u = c as u32;
    (0x09 <= u && u <= 0x0D) || u == 0x20 || u == 0x85 || u == 0xA0 || u == 0x1680 || (0x2000
        <= u && u <= 0x200A) || u == 0x2028 || u == 0x2029 || u == 0x202F || u == 0x205F || u
        == 0x3000
}

/// Whether `s` holds a character that is not whitespace.
pub fn has_text(s: &str) -> (r: bool)
    ensures
        r == has_content(s@),
{
    let n = s.unicode_len();
    let mut i: usize = 0;
    while i < n
        invariant
            n == s@.len(),
            i <= n,
            forall|j: int| 0 <= j < i ==> is_ws(#[trigger] s@[j]),
        decreases n - i,
    {
        if !is_whitespace(s.get_char(i)) {
            return true;
        }
        i = i + 1;
    }
    false
}

/// `s` without leading and trailing whitespace.
pub fn trim(s: &str) -> (r: String)
    ensures
        r@ == trimmed(s@),
{
    let n = s.unicode_len();
    let mut i: usize = 0;
    assert(s@.skip(0) =~= s@);
    while i < n && is_whitespace(s.get_char(i))
        invariant
            n == s@.len(),
            i <= n,
            trim_start(s@.skip(i as int)) == trim_start(s@),
        decreases n - i,
    {
        assert(s@.skip(i as int).skip(1) =~= s@.skip(i + 1));
        i = i + 1;
    }
    assert(trim_start(s@) == s@.skip(i as int));
    let mut j: usize = n;
    while j > i && is_whitespace(s.get_char(j - 1))
        invariant
            n == s@.len(),
            i <= j <= n,
            trim_end(s@.subrange(i as int, j as int)) == trim_end(s@.skip(i as int)),
        decreases j,
    {
        assert(s@.subrange(i as int, j as int).drop_last() =~= s@.subrange(i as int, j - 1));
        j = j - 1;
    }
    assert(s@.skip(i as int) =~= s@.subrange(i as int, n as int));
    let r = String::from_str(s.substring_char(i, j));
    r
}

/// Whether `pat` occurs in `s` at position `i`.
fn occurs_at_exec(s: &str, n: usize, pat: &str, m: usize, i: usize) -> (r: bool)
    requires
        n == s@.len(),
        m == pat@.len(),
        i <= n,
    ensures
        r == occurs_at(s@, pat@, i as int),
{
    if m > n - i {
        return false;
    }
    let mut k: usize = 0;
    while k < m
        invariant
            n == s@.len(),
            m == pat@.len(),
            i + m <= n,
            k <= m,
            forall|t: int| 0 <= t < k ==> s@[i + t] == pat@[t],
        decreases m - k,
    {
        if s.get_char(i + k) != pat.get_char(k) {
            assert(s@.subrange(i as int, i + m)[k as int] != pat@[k as int]);
            return false;
        }
        k = k + 1;
    }
    assert(s@.subrange(i as int, i + m) =~= pat@);
    true
}

/// `s` with every occurrence of `pat` taken out, from the left.
pub fn remove_all(s: &str, pat: &str) -> (r: String)
    requires
        pat@.len() > 0,
    ensures
        r@ == removed(s@, pat@),
{
    let n = s.unicode_len();
    let m = pat.unicode_len();
    let mut out = String::new();
    let mut i: usize = 0;
    assert(s@.skip(0) =~= s@);
    assert(out@ + removed(s@, pat@) =~= removed(s@, pat@));
    while i < n
        invariant
            n == s@.len(),
            m == pat@.len(),
            m > 0,
            i <= n,
            out@ + removed(s@.skip(i as int), pat@) == removed(s@, pat@),
        decreases n - i,
    {
        let rest = Ghost(s@.skip(i as int));
        if occurs_at_exec(s, n, pat, m, i) {
            assert(rest@.subrange(0, m as int) =~= s@.subrange(i as int, i + m));
            assert(rest@.skip(m as int) =~= s@.skip(i + m));
            i = i + m;
        } else {
            assert(!occurs_at(rest@, pat@, 0)) by {
                if occurs_at(rest@, pat@, 0) {
                    assert(rest@.subrange(0, m as int) =~= s@.subrange(i as int, i + m));
                }
            }
            let one = s.substring_char(i, i + 1);
            assert(one@ =~= seq![rest@[0]]);
            assert(rest@.skip(1) =~= s@.skip(i + 1));
            let ghost before = out@;
            out.append(one);
            assert(out@ + removed(s@.skip(i + 1), pat@) =~= before + removed(rest@, pat@));
            i = i + 1;
        }
    }
    assert(s@.skip(n as int) =~= Seq::<char>::empty());
    assert(out@ + Seq::<char>::empty() =~= out@);
    out
}

/// The parts, in order, with one space between neighbours.
pub fn join_with_space(parts: &Vec<String>) -> (r: String)
    ensures
        r@ == joined(views(parts@)),
{
    let mut out = String::new();
    let mut k: usize = 0;
    while k < parts.len()
        invariant
            k <= parts@.len(),
            out@ == joined(views(parts@).take(k as int)),
        decreases parts@.len() - k,
    {
        let ghost before = views(parts@).take(k as int);
        if k > 0 {
            proof {
                reveal_strlit(" ");
            }
            out.append(" ");
        }
        out.append(parts[k].as_str());
        let ghost after = views(parts@).take(k + 1);
        assert(after.last() == parts@[k as int]@);
        assert(after.drop_last() =~= before);
        if k == 0 {
            assert(out@ =~= after[0]);
        } else {
            assert(out@ =~= joined(before) + seq![' '] + after.last());
        }
        k = k + 1;
    }
    assert(views(parts@).take(parts@.len() as int) =~= views(parts@));
    out
}

proof fn lemma_occurs_shift(s: Seq<char>, pat: Seq<char>, j: int)
    requires
        s.len() > 0,
        occurs_at(s.skip(1), pat, j),
    ensures
        occurs_at(s, pat, j + 1),
{
    assert(s.skip(1).subrange(j, j + pat.len()) =~= s.subrange(j + 1, j + 1 + pat.len()));
}

/// Removal never lengthens a text, shortens it exactly when the pattern
/// occurs, and otherwise leaves it as it is.
pub proof fn lemma_removed_len(s: Seq<char>, pat: Seq<char>)
    requires
        pat.len() > 0,
    ensures
        removed(s, pat).len() <= s.len(),
        contains(s, pat) ==> removed(s, pat).len() < s.len(),
        !contains(s, pat) ==> removed(s, pat) == s,
    decreases s.len(),
{
    if s.len() == 0 {
        if contains(s, pat) {
            let i = choose|i: int| occurs_at(s, pat, i);
        }
    } else if occurs_at(s, pat, 0) {
        lemma_removed_len(s.skip(pat.len() as int), pat);
    } else {
        lemma_removed_len(s.skip(1), pat);
        if contains(s, pat) {
            let i = choose|i: int| occurs_at(s, pat, i);
            assert(s.skip(1).subrange(i - 1, i - 1 + pat.len()) =~= s.subrange(i, i + pat.len()));
            assert(occurs_at(s.skip(1), pat, i - 1));
        } else {
            if contains(s.skip(1), pat) {
                let j = choose|j: int| occurs_at(s.skip(1), pat, j);
                lemma_occurs_shift(s, pat, j);
            }
            assert(seq![s[0]] + s.skip(1) =~= s);
        }
    }
}

} // verus!
