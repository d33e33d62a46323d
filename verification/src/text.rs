//! Character-level string utilities shared by the classifiers: truncation,
//! whitespace trimming, delimiter scanning and comparison against fixed
//! tokens, each tied to a sequence-level specification.

use vstd::prelude::*;
use vstd::string::StrSliceExecFns;

verus! {

/// The truncated form of a sequence: its first `TRUNCATE_LEN` characters,
/// or all of it when it is shorter.
pub open spec fn truncate(s: Seq<char>) -> Seq<char> {
    if s.len() <= crate::TRUNCATE_LEN {
        s
    } else {
        s.subrange(0, crate::TRUNCATE_LEN as int)
    }
}

/// Truncation changes nothing the second time.
pub proof fn lemma_truncate_idempotent(s: Seq<char>)
    ensures
        truncate(truncate(s)) == truncate(s),
{
}

/// Cuts a string to at most `TRUNCATE_LEN` characters before it is inspected,
/// bounding comparison cost against adversarial input.
pub fn truncate_str(s: &str) -> (r: &str)
    ensures
        r@ == truncate(s@),
{
    let n: usize = s.unicode_len();
    if n <= crate::TRUNCATE_LEN {
        proof {
            assert(s@.subrange(0, n as int) =~= s@);
        }
        s
    } else {
        s.substring_char(0, crate::TRUNCATE_LEN)
    }
}

/// The characters treated as surrounding whitespace when a token is trimmed.
pub open spec fn is_space(c: char) -> bool {
    c == ' ' || c == '\t' || c == '\n' || c == '\r'
}

/// Executable form of `is_space`.
pub fn is_space_char(c: char) -> (r: bool)
    ensures
        r == is_space(c),
{
    c == ' ' || c == '\t' || c == '\n' || c == '\r'
}

/// A sequence with its leading whitespace removed.
pub open spec fn trim_start(s: Seq<char>) -> Seq<char>
    decreases s.len(),
{
    if s.len() > 0 && is_space(s[0]) {
        trim_start(s.drop_first())
    } else {
        s
    }
}

/// A sequence with its trailing whitespace removed.
pub open spec fn trim_end(s: Seq<char>) -> Seq<char>
    decreases s.len(),
{
    if s.len() > 0 && is_space(s[s.len() - 1]) {
        trim_end(s.drop_last())
    } else {
        s
    }
}

/// A sequence with whitespace removed from both ends.
pub open spec fn trim(s: Seq<char>) -> Seq<char> {
    trim_end(trim_start(s))
}

proof fn lemma_trim_start_at(s: Seq<char>, a: int)
    requires
        0 <= a <= s.len(),
        forall|k: int| 0 <= k < a ==> is_space(s[k]),
        a < s.len() ==> !is_space(s[a]),
    ensures
        trim_start(s) == s.subrange(a, s.len() as int),
    decreases a,
{
    if a == 0 {
        assert(s.subrange(0, s.len() as int) =~= s);
    } else {
        assert(is_space(s[0]));
        lemma_trim_start_at(s.drop_first(), a - 1);
        assert(s.drop_first().subrange(a - 1, s.drop_first().len() as int) =~= s.subrange(
            a,
            s.len() as int,
        ));
    }
}

proof fn lemma_trim_end_at(s: Seq<char>, b: int)
    requires
        0 <= b <= s.len(),
        forall|k: int| b <= k < s.len() ==> is_space(s[k]),
        b > 0 ==> !is_space(s[b - 1]),
    ensures
        trim_end(s) == s.subrange(0, b),
    decreases s.len() - b,
{
    if b == s.len() {
        assert(s.subrange(0, b) =~= s);
    } else {
        assert(is_space(s[s.len() - 1]));
        lemma_trim_end_at(s.drop_last(), b);
        assert(s.drop_last().subrange(0, b) =~= s.subrange(0, b));
    }
}

/// Within a containing sequence, trimming the token that occupies `[i, j)`
/// yields the inner range `[a, b)` once the outer positions hold only
/// whitespace and the inner endpoints do not.
pub proof fn lemma_trim_range(s: Seq<char>, i: int, j: int, a: int, b: int)
    requires
        0 <= i <= a <= b <= j <= s.len(),
        forall|k: int| i <= k < a ==> is_space(s[k]),
        forall|k: int| b <= k < j ==> is_space(s[k]),
        a < b ==> !is_space(s[a]) && !is_space(s[b - 1]),
        a == b ==> a == j,
    ensures
        trim(s.subrange(i, j)) == s.subrange(a, b),
{
    let t = s.subrange(i, j);
    lemma_trim_start_at(t, a - i);
    let u = t.subrange(a - i, t.len() as int);
    assert(u =~= s.subrange(a, j));
    lemma_trim_end_at(u, b - a);
    assert(u.subrange(0, b - a) =~= s.subrange(a, b));
}

/// The position just past the last occurrence of `c` in `s`; 0 when `c`
/// does not occur.
pub open spec fn after_last(s: Seq<char>, c: char) -> int
    decreases s.len(),
{
    if s.len() == 0 {
        0
    } else if s[s.len() - 1] == c {
        s.len() as int
    } else {
        after_last(s.drop_last(), c)
    }
}

/// `after_last` is the unique position with no `c` at or beyond it and,
/// unless it is 0, a `c` immediately before it.
pub proof fn lemma_after_last_at(s: Seq<char>, c: char, a: int)
    requires
        0 <= a <= s.len(),
        forall|k: int| a <= k < s.len() ==> s[k] != c,
        a > 0 ==> s[a - 1] == c,
    ensures
        after_last(s, c) == a,
    decreases s.len(),
{
    if s.len() == 0 {
    } else if s[s.len() - 1] == c {
        assert(a == s.len());
    } else {
        lemma_after_last_at(s.drop_last(), c, a);
    }
}

/// What holds of `after_last` outright: no `c` at or beyond it, and a `c`
/// immediately before it unless it is 0.
pub proof fn lemma_after_last_props(s: Seq<char>, c: char)
    ensures
        0 <= after_last(s, c) <= s.len(),
        forall|k: int| after_last(s, c) <= k < s.len() ==> s[k] != c,
        after_last(s, c) > 0 ==> s[after_last(s, c) - 1] == c,
    decreases s.len(),
{
    if s.len() == 0 {
    } else if s[s.len() - 1] == c {
    } else {
        lemma_after_last_props(s.drop_last(), c);
        assert(forall|k: int|
            0 <= k < s.len() - 1 ==> s.drop_last()[k] == s[k]);
    }
}

/// The position of the first occurrence of `c` at or after `i`, or the
/// length of `s` when there is none.
pub open spec fn scan_to(s: Seq<char>, i: int, c: char) -> int
    decreases s.len() - i,
{
    if i < 0 {
        0
    } else if i >= s.len() {
        s.len() as int
    } else if s[i] == c {
        i
    } else {
        scan_to(s, i + 1, c)
    }
}

/// `scan_to` stays between its starting point and the end of the sequence.
pub proof fn lemma_scan_to_bounds(s: Seq<char>, i: int, c: char)
    requires
        0 <= i <= s.len(),
    ensures
        i <= scan_to(s, i, c) <= s.len(),
    decreases s.len() - i,
{
    if i < s.len() && s[i] != c {
        lemma_scan_to_bounds(s, i + 1, c);
    }
}

/// `scan_to` is the unique position at or after `i` with no `c` before it
/// (within `[i, j)`) and a `c` at it unless it is the end.
pub proof fn lemma_scan_to_at(s: Seq<char>, i: int, j: int, c: char)
    requires
        0 <= i <= j <= s.len(),
        forall|k: int| i <= k < j ==> s[k] != c,
        j < s.len() ==> s[j] == c,
    ensures
        scan_to(s, i, c) == j,
    decreases j - i,
{
    if i < j {
        lemma_scan_to_at(s, i + 1, j, c);
    }
}

/// Compares the character range `[from, to)` of `s` with the whole of `lit`.
pub fn range_eq_lit(s: &str, from: usize, to: usize, lit: &str) -> (r: bool)
    requires
        from <= to <= s@.len(),
    ensures
        r == (s@.subrange(from as int, to as int) == lit@),
{
    let m: usize = lit.unicode_len();
    if to - from != m {
        proof {
            assert(s@.subrange(from as int, to as int).len() != lit@.len());
        }
        return false;
    }
    let mut k: usize = 0;
    while k < m
        invariant
            0 <= k <= m,
            m == lit@.len(),
            from + m <= to <= s@.len(),
            forall|idx: int| 0 <= idx < k ==> s@[from + idx] == lit@[idx],
        decreases m - k,
    {
        if s.get_char(from + k) != lit.get_char(k) {
            proof {
                assert(s@.subrange(from as int, to as int)[k as int] == s@[from + k]);
            }
            return false;
        }
        k += 1;
    }
    proof {
        assert(s@.subrange(from as int, to as int) =~= lit@);
    }
    true
}

/// Compares two strings character by character.
pub fn str_eq(a: &str, b: &str) -> (r: bool)
    ensures
        r == (a@ == b@),
{
    let n: usize = a.unicode_len();
    proof {
        assert(a@.subrange(0, n as int) =~= a@);
    }
    range_eq_lit(a, 0, n, b)
}

} // verus!
