//! Character-sequence helpers shared by the codec and the input parsers.

use vstd::prelude::*;
use vstd::string::*;

verus! {

/// `p` occurs in `s` at position `i`.
pub open spec fn occurs_at(s: Seq<char>, p: Seq<char>, i: int) -> bool {
    0 <= i && i + p.len() <= s.len() && s.subrange(i, i + p.len()) == p
}

/// The first position at or after `i` where `p` occurs in `s`.
pub open spec fn find_from(s: Seq<char>, p: Seq<char>, i: int) -> Option<int>
    decreases s.len() + 1 - i,
{
    if i < 0 || i + p.len() > s.len() {
        None
    } else if s.subrange(i, i + p.len()) == p {
        Some(i)
    } else {
        find_from(s, p, i + 1)
    }
}

/// The first position where `p` occurs in `s`.
pub open spec fn find(s: Seq<char>, p: Seq<char>) -> Option<int> {
    find_from(s, p, 0)
}

pub open spec fn contains(s: Seq<char>, p: Seq<char>) -> bool {
    find(s, p) is Some
}

/// `str::split_once`: the parts before and after the first occurrence of `p`.
pub open spec fn split_once(s: Seq<char>, p: Seq<char>) -> Option<(Seq<char>, Seq<char>)> {
    match find(s, p) {
        Some(i) => Some((s.subrange(0, i), s.subrange(i + p.len(), s.len() as int))),
        None => None,
    }
}

pub proof fn lemma_find_from_bounds(s: Seq<char>, p: Seq<char>, i: int)
    ensures
        find_from(s, p, i) matches Some(k) ==> i <= k && k + p.len() <= s.len() && occurs_at(s, p, k),
    decreases s.len() + 1 - i,
{
    if i < 0 || i + p.len() > s.len() {
    } else if s.subrange(i, i + p.len()) == p {
    } else {
        lemma_find_from_bounds(s, p, i + 1);
    }
}

/// The characters of `s`, one element each.
pub fn chars_of(s: &str) -> (v: Vec<char>)
    ensures
        v@ == s@,
{
    let n = s.unicode_len();
    let mut v: Vec<char> = Vec::new();
    let mut i: usize = 0;
    while i < n
        invariant
            n == s@.len(),
            i <= n,
            v@ == s@.subrange(0, i as int),
        decreases n - i,
    {
        v.push(s.get_char(i));
        i = i + 1;
        assert(v@ =~= s@.subrange(0, i as int));
    }
    assert(v@ =~= s@);
    v
}

/// Whether `p` occurs in `s` at position `i`.
fn matches_at(s: &Vec<char>, p: &Vec<char>, i: usize) -> (r: bool)
    requires
        i + p@.len() <= s@.len(),
    ensures
        r == (s@.subrange(i as int, i + p@.len()) == p@),
{
    let n = s.len();
    let mut k: usize = 0;
    while k < p.len()
        invariant
            n == s@.len(),
            i + p@.len() <= s@.len(),
            k <= p@.len(),
            forall|j: int| 0 <= j < k ==> s@[i + j] == p@[j],
        decreases p@.len() - k,
    {
        if s[i + k] != p[k] {
            assert(s@.subrange(i as int, i + p@.len())[k as int] != p@[k as int]);
            return false;
        }
        k = k + 1;
    }
    assert(s@.subrange(i as int, i + p@.len()) =~= p@);
    true
}

/// The first position at or after `from` where `p` occurs in `s`.
pub fn find_in(s: &Vec<char>, p: &Vec<char>, from: usize) -> (r: Option<usize>)
    ensures
        r matches Some(k) ==> find_from(s@, p@, from as int) == Some(k as int),
        r is None ==> find_from(s@, p@, from as int) is None,
{
    if from > s.len() || p.len() > s.len() - from {
        return None;
    }
    let last = s.len() - p.len();
    let mut i: usize = from;
    loop
        invariant
            from <= i <= last,
            last + p@.len() == s@.len(),
            find_from(s@, p@, from as int) == find_from(s@, p@, i as int),
        decreases last - i,
    {
        if matches_at(s, p, i) {
            return Some(i);
        }
        if i == last {
            assert(find_from(s@, p@, i + 1) is None);
            return None;
        }
        i = i + 1;
    }
}

/// `str::split_once`: the parts of `s` before and after the first `p`.
pub fn split_once_at<'a>(s: &'a str, p: &str) -> (r: Option<(&'a str, &'a str)>)
    ensures
        r matches Some((a, b)) ==> split_once(s@, p@) == Some((a@, b@)),
        r is None ==> split_once(s@, p@) is None,
{
    let v = chars_of(s);
    let pv = chars_of(p);
    match find_in(&v, &pv, 0) {
        Some(i) => {
            proof {
                lemma_find_from_bounds(v@, pv@, 0);
            }
            let n = v.len();
            Some((s.substring_char(0, i), s.substring_char(i + pv.len(), n)))
        },
        None => None,
    }
}

/// Whether `p` occurs in `s`.
pub fn contains_str(s: &str, p: &str) -> (r: bool)
    ensures
        r == contains(s@, p@),
{
    let v = chars_of(s);
    let pv = chars_of(p);
    find_in(&v, &pv, 0).is_some()
}

/// Relies on `char::to_string`: the one-character string of `c`.
#[verifier::external_body]
pub(crate) fn char_str(c: char) -> (r: String)
    ensures
        r@ == seq![c],
{
    c.to_string()
}

/// The first occurrence at or after `i` is at `k` when `p` occurs at `k` and
/// nowhere between `i` and `k`.
pub proof fn lemma_find_from_first(s: Seq<char>, p: Seq<char>, i: int, k: int)
    requires
        0 <= i <= k,
        occurs_at(s, p, k),
        forall|j: int| i <= j < k ==> !occurs_at(s, p, j),
    ensures
        find_from(s, p, i) == Some(k),
    decreases k - i,
{
    if i < k {
        assert(!occurs_at(s, p, i));
        lemma_find_from_first(s, p, i + 1, k);
    }
}

/// A one-character pattern occurs exactly where that character stands.
pub proof fn lemma_occurs_char(s: Seq<char>, c: char, j: int)
    ensures
        occurs_at(s, seq![c], j) <==> (0 <= j < s.len() && s[j] == c),
{
    if 0 <= j < s.len() {
        assert(s[j] == c ==> s.subrange(j, j + 1) =~= seq![c]);
        assert(s.subrange(j, j + 1) == seq![c] ==> s.subrange(j, j + 1)[0] == c);
    }
}

/// A two-character pattern occurs exactly where those characters stand in turn.
pub proof fn lemma_occurs_pair(s: Seq<char>, a: char, b: char, j: int)
    ensures
        occurs_at(s, seq![a, b], j) <==> (0 <= j && j + 1 < s.len() && s[j] == a && s[j + 1] == b),
{
    if 0 <= j && j + 1 < s.len() {
        assert(s[j] == a && s[j + 1] == b ==> s.subrange(j, j + 2) =~= seq![a, b]);
        assert(s.subrange(j, j + 2) == seq![a, b] ==> s.subrange(j, j + 2)[0] == a
            && s.subrange(j, j + 2)[1] == b);
    }
}

/// A pattern that occurs somewhere is found.
pub proof fn lemma_occurs_contains(s: Seq<char>, p: Seq<char>, k: int)
    requires
        occurs_at(s, p, k),
    ensures
        contains(s, p),
    decreases k,
{
    if exists|j: int| 0 <= j < k && occurs_at(s, p, j) {
        let j = choose|j: int| 0 <= j < k && occurs_at(s, p, j);
        lemma_occurs_contains(s, p, j);
    } else {
        lemma_find_from_first(s, p, 0, k);
    }
}

/// No character of `s` is `c`.
pub open spec fn lacks(s: Seq<char>, c: char) -> bool {
    forall|i: int| 0 <= i < s.len() ==> s[i] != c
}

pub proof fn lemma_lacks_concat(a: Seq<char>, b: Seq<char>, c: char)
    requires
        lacks(a, c),
        lacks(b, c),
    ensures
        lacks(a + b, c),
{
    assert forall|i: int| 0 <= i < (a + b).len() implies (a + b)[i] != c by {
        if i >= a.len() {
            assert((a + b)[i] == b[i - a.len()]);
        }
    }
}

/// In `a + b`, where `a` lacks `c` and `b` starts with it, `c` is first found
/// right after `a`.
pub proof fn lemma_find_char_after(a: Seq<char>, b: Seq<char>, c: char)
    requires
        lacks(a, c),
        b.len() > 0,
        b[0] == c,
    ensures
        find(a + b, seq![c]) == Some(a.len() as int),
{
    let s = a + b;
    lemma_occurs_char(s, c, a.len() as int);
    assert forall|j: int| 0 <= j < a.len() implies !occurs_at(s, seq![c], j) by {
        lemma_occurs_char(s, c, j);
    }
    lemma_find_from_first(s, seq![c], 0, a.len() as int);
}

/// `p` occurs in `x + p + y` right after `x`.
pub proof fn lemma_occurs_middle(x: Seq<char>, p: Seq<char>, y: Seq<char>)
    ensures
        occurs_at(x + p + y, p, x.len() as int),
{
    assert((x + p + y).subrange(x.len() as int, (x.len() + p.len()) as int) =~= p);
}

/// A character that `s` lacks is not found.
pub proof fn lemma_find_lacking(s: Seq<char>, c: char, i: int)
    requires
        lacks(s, c),
        0 <= i,
    ensures
        find_from(s, seq![c], i) is None,
    decreases s.len() + 1 - i,
{
    if i + 1 <= s.len() {
        lemma_occurs_char(s, c, i);
        lemma_find_lacking(s, c, i + 1);
    }
}

/// A pattern that occurs nowhere at or after `i` is not found.
pub proof fn lemma_find_none(s: Seq<char>, p: Seq<char>, i: int)
    requires
        0 <= i,
        forall|j: int| i <= j ==> !occurs_at(s, p, j),
    ensures
        find_from(s, p, i) is None,
    decreases s.len() + 1 - i,
{
    if i + p.len() <= s.len() {
        assert(!occurs_at(s, p, i));
        lemma_find_none(s, p, i + 1);
    }
}

/// Where `s` does not contain `p`, `p` occurs nowhere in it.
pub proof fn lemma_absent(s: Seq<char>, p: Seq<char>, j: int)
    requires
        !contains(s, p),
    ensures
        !occurs_at(s, p, j),
{
    if occurs_at(s, p, j) {
        lemma_occurs_contains(s, p, j);
    }
}

/// A string without `x` holds no pair starting with `x`.
pub proof fn lemma_lacks_no_pair(s: Seq<char>, x: char, y: char)
    requires
        lacks(s, x),
    ensures
        !contains(s, seq![x, y]),
{
    assert forall|j: int| 0 <= j implies !occurs_at(s, seq![x, y], j) by {
        lemma_occurs_pair(s, x, y, j);
    }
    lemma_find_none(s, seq![x, y], 0);
}

/// Two strings without the pair `x y` joined without forming it at the seam.
pub proof fn lemma_no_pair_join(a: Seq<char>, b: Seq<char>, x: char, y: char)
    requires
        !contains(a, seq![x, y]),
        !contains(b, seq![x, y]),
        a.len() == 0 || b.len() == 0 || a.last() != x || b[0] != y,
    ensures
        !contains(a + b, seq![x, y]),
{
    let s = a + b;
    assert forall|j: int| 0 <= j implies !occurs_at(s, seq![x, y], j) by {
        lemma_occurs_pair(s, x, y, j);
        if j + 1 < a.len() {
            lemma_absent(a, seq![x, y], j);
            lemma_occurs_pair(a, x, y, j);
        } else if j >= a.len() {
            lemma_absent(b, seq![x, y], j - a.len());
            lemma_occurs_pair(b, x, y, j - a.len());
        }
    }
    lemma_find_none(s, seq![x, y], 0);
}

/// In `a + b`, where `a` holds no `x y`, `b` starts with it and `x != y`, the
/// pair is first found right after `a`.
pub proof fn lemma_find_pair_join(a: Seq<char>, b: Seq<char>, x: char, y: char)
    requires
        !contains(a, seq![x, y]),
        x != y,
        b.len() >= 2,
        b[0] == x,
        b[1] == y,
    ensures
        find(a + b, seq![x, y]) == Some(a.len() as int),
{
    let s = a + b;
    lemma_occurs_pair(s, x, y, a.len() as int);
    assert forall|j: int| 0 <= j < a.len() implies !occurs_at(s, seq![x, y], j) by {
        lemma_occurs_pair(s, x, y, j);
        if j + 1 < a.len() {
            lemma_absent(a, seq![x, y], j);
            lemma_occurs_pair(a, x, y, j);
        }
    }
    lemma_find_from_first(s, seq![x, y], 0, a.len() as int);
}

/// What occurs in `b` occurs in `a + b + c`, shifted by `a`.
pub proof fn lemma_occurs_shift(a: Seq<char>, b: Seq<char>, c: Seq<char>, p: Seq<char>, k: int)
    requires
        occurs_at(b, p, k),
    ensures
        occurs_at(a + b + c, p, a.len() + k),
{
    assert((a + b + c).subrange(a.len() + k, a.len() + k + p.len()) =~= b.subrange(k, k + p.len()));
}

} // verus!
