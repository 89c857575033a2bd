//! Searching character text: first occurrences, whitespace skipping, digit runs.

use vstd::prelude::*;
use crate::text::{is_ws, is_whitespace, is_digit};

verus! {

/// `p` occurs in `t` at index `i`.
pub open spec fn occurs_at(t: Seq<char>, p: Seq<char>, i: int) -> bool {
    0 <= i && i + p.len() <= t.len() && t.subrange(i, i + p.len()) == p
}

/// The first index at or after `i` where `p` occurs in `t`.
pub open spec fn find_from(t: Seq<char>, p: Seq<char>, i: int) -> Option<int>
    decreases t.len() + 1 - i,
{
    if i < 0 || i + p.len() > t.len() {
        None
    } else if occurs_at(t, p, i) {
        Some(i)
    } else {
        find_from(t, p, i + 1)
    }
}

/// The first index at or after `i` holding `c`.
pub open spec fn find_char(t: Seq<char>, c: char, i: int) -> Option<int> {
    find_from(t, seq![c], i)
}

/// The first index at or after `i` that is not whitespace (or the end).
pub open spec fn skip_ws(t: Seq<char>, i: int) -> int
    decreases t.len() - i,
{
    if 0 <= i < t.len() && is_ws(t[i]) {
        skip_ws(t, i + 1)
    } else {
        i
    }
}

/// The end of the run of ASCII digits starting at `i`.
pub open spec fn digits_end(t: Seq<char>, i: int) -> int
    decreases t.len() - i,
{
    if 0 <= i < t.len() && is_digit(t[i]) {
        digits_end(t, i + 1)
    } else {
        i
    }
}

pub proof fn lemma_find_from_found(t: Seq<char>, p: Seq<char>, i: int)
    requires
        0 <= i,
    ensures
        find_from(t, p, i) matches Some(k) ==> i <= k && occurs_at(t, p, k) && forall|m: int|
            i <= m < k ==> !occurs_at(t, p, m),
        find_from(t, p, i) is None ==> forall|m: int| i <= m ==> !occurs_at(t, p, m),
    decreases t.len() + 1 - i,
{
    if i + p.len() > t.len() {
    } else if occurs_at(t, p, i) {
    } else {
        lemma_find_from_found(t, p, i + 1);
    }
}

/// The first occurrence of `p` in `t` at or after `from`.
pub fn find_seq(t: &Vec<char>, p: &Vec<char>, from: usize) -> (r: Option<usize>)
    requires
        from <= t@.len(),
    ensures
        r == (match find_from(t@, p@, from as int) {
            Some(k) => Some(k as usize),
            None => None::<usize>,
        }),
        r matches Some(x) ==> from <= x && x + p@.len() <= t@.len() && occurs_at(t@, p@, x as int)
            && find_from(t@, p@, from as int) == Some(x as int),
        r is None ==> find_from(t@, p@, from as int) is None,
{
    proof {
        lemma_find_from_found(t@, p@, from as int);
    }
    let mut i = from;
    let n = t.len();
    let m = p.len();
    while i <= n && m <= n - i
        invariant
            from <= i,
            n == t@.len(),
            m == p@.len(),
            i <= n + 1,
            find_from(t@, p@, from as int) == find_from(t@, p@, i as int),
        decreases n + 1 - i,
    {
        let mut j: usize = 0;
        while j < m && t[i + j] == p[j]
            invariant
                j <= m,
                i + m <= n,
                n == t@.len(),
                m == p@.len(),
                forall|k: int| 0 <= k < j ==> t@[i + k] == p@[k],
            decreases m - j,
        {
            j = j + 1;
        }
        if j == m {
            assert(t@.subrange(i as int, i + m) == p@);
            return Some(i);
        }
        assert(t@.subrange(i as int, i + m)[j as int] != p@[j as int]);
        i = i + 1;
    }
    None
}

/// The first index at or after `from` holding `c`.
pub fn find_ch(t: &Vec<char>, c: char, from: usize) -> (r: Option<usize>)
    requires
        from <= t@.len(),
    ensures
        r == (match find_char(t@, c, from as int) {
            Some(k) => Some(k as usize),
            None => None::<usize>,
        }),
        r matches Some(x) ==> from <= x < t@.len() && t@[x as int] == c && find_char(t@, c, from as int)
            == Some(x as int),
        r is None ==> find_char(t@, c, from as int) is None,
{
    let p = vec![c];
    assert(p@ == seq![c]);
    let r = find_seq(t, &p, from);
    if let Some(x) = r {
        assert(t@.subrange(x as int, x + 1)[0] == c);
    }
    r
}

/// `skip_ws`, computed.
pub fn skip_whitespace(t: &Vec<char>, from: usize) -> (r: usize)
    requires
        from <= t@.len(),
    ensures
        r == skip_ws(t@, from as int),
        from <= r <= t@.len(),
{
    let mut i = from;
    while i < t.len() && is_whitespace(t[i])
        invariant
            from <= i <= t@.len(),
            skip_ws(t@, from as int) == skip_ws(t@, i as int),
        decreases t@.len() - i,
    {
        i = i + 1;
    }
    i
}

/// `digits_end`, computed.
pub fn end_of_digits(t: &Vec<char>, from: usize) -> (r: usize)
    requires
        from <= t@.len(),
    ensures
        r == digits_end(t@, from as int),
        from <= r <= t@.len(),
{
    let mut i = from;
    while i < t.len() && '0' <= t[i] && t[i] <= '9'
        invariant
            from <= i <= t@.len(),
            digits_end(t@, from as int) == digits_end(t@, i as int),
        decreases t@.len() - i,
    {
        i = i + 1;
    }
    i
}

/// The characters `t[a..b]`.
pub fn slice_chars(t: &Vec<char>, a: usize, b: usize) -> (r: Vec<char>)
    requires
        a <= b <= t@.len(),
    ensures
        r@ == t@.subrange(a as int, b as int),
{
    let mut r: Vec<char> = Vec::new();
    let mut k = a;
    while k < b
        invariant
            a <= k <= b <= t@.len(),
            r@ == t@.subrange(a as int, k as int),
        decreases b - k,
    {
        r.push(t[k]);
        k = k + 1;
    }
    r
}

} // verus!
