//! Character-level helpers on `&str`, stated over the string's view.
use vstd::prelude::*;
use vstd::string::*;

verus! {

/// Whether `s` begins with `prefix`.
pub open spec fn has_prefix(s: Seq<char>, prefix: Seq<char>) -> bool {
    prefix.len() <= s.len() && s.subrange(0, prefix.len() as int) == prefix
}

/// Whether `needle` occurs in `s` at position `i`.
pub open spec fn occurs_at(s: Seq<char>, needle: Seq<char>, i: int) -> bool {
    0 <= i && i + needle.len() <= s.len() && s.subrange(i, i + needle.len()) == needle
}

/// Whether `needle` occurs anywhere in `s`.
pub open spec fn has_infix(s: Seq<char>, needle: Seq<char>) -> bool {
    exists|i: int| occurs_at(s, needle, i)
}

/// Whether the characters of `s` from `start` on begin with `needle`.
fn matches_at(s: &str, n: usize, needle: &str, m: usize, start: usize) -> (r: bool)
    requires
        n == s@.len(),
        m == needle@.len(),
        start <= n,
    ensures
        r == occurs_at(s@, needle@, start as int),
{
    if m > n - start {
        return false;
    }
    let mut j: usize = 0;
    while j < m
        invariant
            j <= m,
            start + m <= n,
            n == s@.len(),
            m == needle@.len(),
            forall|k: int| 0 <= k < j ==> s@[start + k] == needle@[k],
        decreases m - j,
    {
        if s.get_char(start + j) != needle.get_char(j) {
            assert(s@.subrange(start as int, start + m)[j as int] != needle@[j as int]);
            return false;
        }
        j = j + 1;
    }
    assert(s@.subrange(start as int, start + m) =~= needle@);
    true
}

/// Character equality of two strings.
pub fn same_text(a: &str, b: &str) -> (r: bool)
    ensures
        r == (a@ == b@),
{
    let n = a.unicode_len();
    let m = b.unicode_len();
    if n != m {
        return false;
    }
    let r = matches_at(a, n, b, m, 0);
    assert(a@ =~= a@.subrange(0, m as int));
    r
}

/// Whether `s` begins with `prefix`.
pub fn starts_with(s: &str, prefix: &str) -> (r: bool)
    ensures
        r == has_prefix(s@, prefix@),
{
    let n = s.unicode_len();
    let m = prefix.unicode_len();
    matches_at(s, n, prefix, m, 0)
}

/// Whether `needle` occurs anywhere in `s`.
pub fn contains(s: &str, needle: &str) -> (r: bool)
    ensures
        r == has_infix(s@, needle@),
{
    let n = s.unicode_len();
    let m = needle.unicode_len();
    let mut i: usize = 0;
    while i < n
        invariant
            i <= n,
            n == s@.len(),
            m == needle@.len(),
            forall|k: int| 0 <= k < i ==> !occurs_at(s@, needle@, k),
        decreases n - i,
    {
        if matches_at(s, n, needle, m, i) {
            return true;
        }
        i = i + 1;
    }
    let last = matches_at(s, n, needle, m, n);
    assert forall|k: int| k != n implies !occurs_at(s@, needle@, k) by {
        if 0 <= k && k < n {
            assert(!occurs_at(s@, needle@, k));
        }
    }
    last
}

} // verus!
