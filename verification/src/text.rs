//! Character and string helpers shared by the backends.
//!
//! The visibility filters match window classes and app ids against a
//! deny-list, case-insensitively for ASCII letters; the tray watcher
//! matches DBus names against a fixed prefix and splits a service
//! specification at its first slash. All of it is verified against
//! character-level specifications.

use vstd::prelude::*;

verus! {

/// `c` is an ASCII upper-case letter.
pub open spec fn is_ascii_upper(c: char) -> bool {
    65 <= c as u32 <= 90
}

/// `a` and `b` are the same character up to ASCII case.
pub open spec fn eq_ci(a: char, b: char) -> bool {
    a == b
    || (is_ascii_upper(a) && b as u32 == a as u32 + 32)
    || (is_ascii_upper(b) && a as u32 == b as u32 + 32)
}

/// The needle `n` matches `h` at offset `i`, up to ASCII case.
pub open spec fn ci_matches_at(h: Seq<char>, n: Seq<char>, i: int) -> bool {
    forall|j: int| 0 <= j < n.len() ==> eq_ci(h[i + j], n[j])
}

/// `n` occurs somewhere in `h`, up to ASCII case.
pub open spec fn spec_contains_ci(h: Seq<char>, n: Seq<char>) -> bool {
    exists|i: int| 0 <= i && i + n.len() <= h.len() && ci_matches_at(h, n, i)
}

/// `p` is a prefix of `s` (exact, case-sensitive).
pub open spec fn spec_starts_with(s: Seq<char>, p: Seq<char>) -> bool {
    p.len() <= s.len() && s.subrange(0, p.len() as int) == p
}

/// Compare two characters up to ASCII case.
pub fn char_eq_ci(a: char, b: char) -> (r: bool)
    ensures
        r == eq_ci(a, b),
{
    let au = a as u32;
    let bu = b as u32;
    a == b || (65 <= au && au <= 90 && bu == au + 32) || (65 <= bu && bu <= 90 && au == bu + 32)
}

/// The needle matches the haystack at offset `i`, up to ASCII case.
fn matches_at_ci(hay: &str, needle: &str, i: usize) -> (r: bool)
    requires
        i + needle@.len() <= hay@.len(),
        hay@.len() <= usize::MAX,
    ensures
        r == ci_matches_at(hay@, needle@, i as int),
{
    let nlen = needle.unicode_len();
    let mut j: usize = 0;
    while j < nlen
        invariant
            nlen == needle@.len(),
            i + nlen <= hay@.len(),
            hay@.len() <= usize::MAX,
            j <= nlen,
            forall|k: int| 0 <= k < j ==> eq_ci(hay@[i + k], needle@[k]),
        decreases nlen - j,
    {
        if !char_eq_ci(hay.get_char(i + j), needle.get_char(j)) {
            return false;
        }
        j += 1;
    }
    true
}

/// Case-insensitive (ASCII) substring test: does `needle` occur in `hay`?
pub fn contains_ci(hay: &str, needle: &str) -> (r: bool)
    ensures
        r == spec_contains_ci(hay@, needle@),
{
    let hlen = hay.unicode_len();
    let nlen = needle.unicode_len();
    if nlen > hlen {
        return false;
    }
    let mut i: usize = 0;
    while i <= hlen - nlen
        invariant
            hlen == hay@.len(),
            nlen == needle@.len(),
            nlen <= hlen,
            i <= hlen - nlen + 1,
            forall|k: int| 0 <= k < i ==> !ci_matches_at(hay@, needle@, k),
        decreases hlen - nlen + 1 - i,
    {
        if matches_at_ci(hay, needle, i) {
            return true;
        }
        i += 1;
    }
    false
}

/// Exact prefix test.
pub fn str_starts_with(s: &str, p: &str) -> (r: bool)
    ensures
        r == spec_starts_with(s@, p@),
{
    let slen = s.unicode_len();
    let plen = p.unicode_len();
    if plen > slen {
        return false;
    }
    let mut j: usize = 0;
    while j < plen
        invariant
            slen == s@.len(),
            plen == p@.len(),
            plen <= slen,
            j <= plen,
            forall|k: int| 0 <= k < j ==> s@[k] == p@[k],
        decreases plen - j,
    {
        if s.get_char(j) != p.get_char(j) {
            assert(s@.subrange(0, plen as int)[j as int] == s@[j as int]);
            return false;
        }
        j += 1;
    }
    assert(s@.subrange(0, plen as int) =~= p@);
    true
}

/// Exact equality of two string slices, by view.
pub fn str_eq(a: &str, b: &str) -> (r: bool)
    ensures
        r == (a@ == b@),
{
    let alen = a.unicode_len();
    let blen = b.unicode_len();
    if alen != blen {
        return false;
    }
    let mut j: usize = 0;
    while j < alen
        invariant
            alen == a@.len(),
            alen == b@.len(),
            j <= alen,
            forall|k: int| 0 <= k < j ==> a@[k] == b@[k],
        decreases alen - j,
    {
        if a.get_char(j) != b.get_char(j) {
            return false;
        }
        j += 1;
    }
    assert(a@ =~= b@);
    true
}

/// The index of the first occurrence of `c` in `s`, if any.
pub fn find_char(s: &str, c: char) -> (r: Option<usize>)
    ensures
        match r {
            Some(i) => i < s@.len() && s@[i as int] == c
                && (forall|k: int| 0 <= k < i ==> s@[k] != c),
            None => forall|k: int| 0 <= k < s@.len() ==> s@[k] != c,
        },
{
    let len = s.unicode_len();
    let mut i: usize = 0;
    while i < len
        invariant
            len == s@.len(),
            i <= len,
            forall|k: int| 0 <= k < i ==> s@[k] != c,
        decreases len - i,
    {
        if s.get_char(i) == c {
            return Some(i);
        }
        i += 1;
    }
    None
}

} // verus!
