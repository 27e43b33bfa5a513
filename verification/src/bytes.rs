//! Byte-sequence scanning helpers shared by the JSON and URL code.

use vstd::prelude::*;

verus! {

/// Whether `b` is an ASCII whitespace byte (tab through carriage
/// return, or space).
pub open spec fn is_ws(b: u8) -> bool {
    b == 32 || (9 <= b && b <= 13)
}

/// The first index at or after `i` holding a byte that is not ASCII
/// whitespace, or the length of `s` if only whitespace remains.
pub open spec fn skip_ws(s: Seq<u8>, i: int) -> int
    decreases s.len() - i,
{
    if i < 0 || i >= s.len() {
        i
    } else if is_ws(s[i]) {
        skip_ws(s, i + 1)
    } else {
        i
    }
}

/// The position of the first occurrence of `sub` at or after `from` in
/// `s`, if any.
pub open spec fn find_from(s: Seq<u8>, sub: Seq<u8>, from: int) -> Option<int>
    decreases s.len() - from,
{
    if from < 0 || from + sub.len() > s.len() {
        None
    } else if sub.len() == 0 {
        Some(from)
    } else if s.subrange(from, from + sub.len() as int) == sub {
        Some(from)
    } else {
        find_from(s, sub, from + 1)
    }
}

pub proof fn lemma_find_from_bounds(s: Seq<u8>, sub: Seq<u8>, from: int)
    ensures
        find_from(s, sub, from) matches Some(k) ==> from <= k && k + sub.len() <= s.len(),
    decreases s.len() - from,
{
    if !(from < 0 || from + sub.len() > s.len()) && sub.len() != 0 && s.subrange(
        from,
        from + sub.len() as int,
    ) != sub {
        lemma_find_from_bounds(s, sub, from + 1);
    }
}

/// Whether the bytes of `a` and `b` are equal.
pub fn bytes_eq(a: &[u8], b: &[u8]) -> (r: bool)
    ensures
        r == (a@ == b@),
{
    if a.len() != b.len() {
        return false;
    }
    let mut j: usize = 0;
    while j < a.len()
        invariant
            j <= a.len(),
            a.len() == b.len(),
            forall|k: int| 0 <= k < j ==> a@[k] == b@[k],
        decreases a.len() - j,
    {
        if a[j] != b[j] {
            return false;
        }
        j = j + 1;
    }
    proof {
        assert(a@ =~= b@);
    }
    true
}

/// Whether `sub` occurs in `s` starting exactly at index `i`.
pub fn match_at(s: &[u8], sub: &[u8], i: usize) -> (r: bool)
    requires
        i <= s@.len(),
    ensures
        r == (i + sub@.len() <= s@.len() && s@.subrange(i as int, i + sub@.len()) == sub@),
{
    if sub.len() > s.len() - i {
        return false;
    }
    let mut j: usize = 0;
    while j < sub.len()
        invariant
            j <= sub.len(),
            i + sub.len() <= s.len(),
            forall|k: int| 0 <= k < j ==> s@[i + k] == sub@[k],
        decreases sub.len() - j,
    {
        if s[i + j] != sub[j] {
            proof {
                assert(s@.subrange(i as int, i + sub@.len())[j as int] == s@[i + j]);
            }
            return false;
        }
        j = j + 1;
    }
    proof {
        assert(s@.subrange(i as int, i + sub@.len()) =~= sub@);
    }
    true
}

/// Find the first occurrence of `sub` at or after `from` in `s`.
pub fn find_bytes(s: &[u8], sub: &[u8], from: usize) -> (r: Option<usize>)
    requires
        from <= s@.len(),
    ensures
        match r {
            Some(k) => find_from(s@, sub@, from as int) == Some(k as int),
            None => find_from(s@, sub@, from as int) is None,
        },
{
    let mut i: usize = from;
    loop
        invariant
            from <= i <= s@.len(),
            find_from(s@, sub@, from as int) == find_from(s@, sub@, i as int),
        decreases s@.len() - i,
    {
        if sub.len() > s.len() - i {
            return None;
        }
        if match_at(s, sub, i) {
            return Some(i);
        }
        proof {
            if sub@.len() == 0 {
                assert(s@.subrange(i as int, i as int) =~= sub@);
            }
        }
        i = i + 1;
    }
}

/// Skip ASCII whitespace from index `i` on.
pub fn skip_ws_at(s: &[u8], i: usize) -> (r: usize)
    requires
        i <= s@.len(),
    ensures
        r == skip_ws(s@, i as int),
        i <= r <= s@.len(),
{
    let mut k: usize = i;
    while k < s.len() && (s[k] == 32 || (9 <= s[k] && s[k] <= 13))
        invariant
            i <= k <= s@.len(),
            skip_ws(s@, i as int) == skip_ws(s@, k as int),
        decreases s@.len() - k,
    {
        k = k + 1;
    }
    k
}

/// Copy the bytes of `s` between `a` (inclusive) and `b` (exclusive).
pub fn subrange_vec(s: &[u8], a: usize, b: usize) -> (r: Vec<u8>)
    requires
        a <= b <= s@.len(),
    ensures
        r@ == s@.subrange(a as int, b as int),
{
    let mut v: Vec<u8> = Vec::new();
    let mut k: usize = a;
    while k < b
        invariant
            a <= k <= b <= s@.len(),
            v@ == s@.subrange(a as int, k as int),
        decreases b - k,
    {
        v.push(s[k]);
        assert(s@.subrange(a as int, k as int).push(s@[k as int]) =~= s@.subrange(
            a as int,
            k + 1,
        ));
        k = k + 1;
    }
    v
}

} // verus!
