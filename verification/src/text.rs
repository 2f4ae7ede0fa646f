//! Character-level text operations shared by the counting and filtering logic.
//!
//! Texts are handled as sequences of `char`. A window `[lo, hi)` of a vector
//! of characters stands for the subrange `v@.subrange(lo, hi)`.
use vstd::prelude::*;

verus! {

/// The Unicode `White_Space` property, which `char::is_whitespace` and the
/// trimming methods of `str` go by.
pub open spec fn is_white_space(c: char) -> bool {
    let u = c as u32;
    ||| 0x9 <= u <= 0xd
    ||| u == 0x20
    ||| u == 0x85
    ||| u == 0xa0
    ||| u == 0x1680
    ||| 0x2000 <= u <= 0x200a
    ||| u == 0x2028
    ||| u == 0x2029
    ||| u == 0x202f
    ||| u == 0x205f
    ||| u == 0x3000
}

/// Number of white-space characters at the start of `s`.
pub open spec fn leading_white_space(s: Seq<char>) -> nat
    decreases s.len(),
{
    if s.len() > 0 && is_white_space(s[0]) {
        1 + leading_white_space(s.drop_first())
    } else {
        0
    }
}

/// Number of white-space characters at the end of `s`.
pub open spec fn trailing_white_space(s: Seq<char>) -> nat
    decreases s.len(),
{
    if s.len() > 0 && is_white_space(s.last()) {
        1 + trailing_white_space(s.drop_last())
    } else {
        0
    }
}

/// `s` without its leading white space.
pub open spec fn trim_start(s: Seq<char>) -> Seq<char> {
    s.skip(leading_white_space(s) as int)
}

/// `s` without its trailing white space.
pub open spec fn trim_end(s: Seq<char>) -> Seq<char> {
    s.take(s.len() - trailing_white_space(s))
}

/// `s` without leading and trailing white space.
pub open spec fn trim(s: Seq<char>) -> Seq<char> {
    trim_end(trim_start(s))
}

/// `p` is a prefix of `s`.
pub open spec fn starts_with(s: Seq<char>, p: Seq<char>) -> bool {
    p.len() <= s.len() && s.take(p.len() as int) == p
}

/// `p` is a suffix of `s`.
pub open spec fn ends_with(s: Seq<char>, p: Seq<char>) -> bool {
    p.len() <= s.len() && s.skip(s.len() - p.len()) == p
}

/// `p` occurs in `s` at position `i`.
pub open spec fn occurs_at(s: Seq<char>, p: Seq<char>, i: int) -> bool {
    0 <= i && i + p.len() <= s.len() && s.subrange(i, i + p.len()) == p
}

/// `p` occurs somewhere in `s` (the empty sequence occurs in every sequence).
pub open spec fn contains(s: Seq<char>, p: Seq<char>) -> bool {
    exists|i: int| #[trigger] occurs_at(s, p, i)
}

/// The character sequences of a sequence of strings.
pub open spec fn string_views(s: Seq<String>) -> Seq<Seq<char>> {
    s.map_values(|e: String| e@)
}

/// `s` with each item kept only at its first occurrence.
pub open spec fn dedup(s: Seq<Seq<char>>) -> Seq<Seq<char>>
    decreases s.len(),
{
    if s.len() == 0 {
        Seq::empty()
    } else {
        let d = dedup(s.drop_last());
        if d.contains(s.last()) {
            d
        } else {
            d.push(s.last())
        }
    }
}

/// `dedup(s)` holds each item of `s` exactly once, and nothing else.
pub proof fn lemma_dedup(s: Seq<Seq<char>>)
    ensures
        forall|i: int, j: int| 0 <= i < j < dedup(s).len() ==> dedup(s)[i] != dedup(s)[j],
        forall|x: Seq<char>| #[trigger] dedup(s).contains(x) <==> s.contains(x),
    decreases s.len(),
{
    if s.len() > 0 {
        let d = s.drop_last();
        lemma_dedup(d);
        let ds = dedup(s);
        let dd = dedup(d);
        assert(ds == dd || ds == dd.push(s.last()));
        assert forall|x: Seq<char>| #[trigger] ds.contains(x) <==> s.contains(x) by {
            if s.contains(x) {
                let k = choose|k: int| 0 <= k < s.len() && s[k] == x;
                if k < s.len() - 1 {
                    assert(d[k] == x);
                    assert(d.contains(x));
                    assert(dd.contains(x));
                    let m = choose|m: int| 0 <= m < dd.len() && dd[m] == x;
                    assert(ds[m] == x);
                } else if dd.contains(s.last()) {
                    assert(ds == dd);
                } else {
                    assert(ds[ds.len() - 1] == x);
                }
            }
            if ds.contains(x) {
                let k = choose|k: int| 0 <= k < ds.len() && ds[k] == x;
                if k < dd.len() {
                    assert(dd[k] == x);
                    assert(dd.contains(x));
                    assert(d.contains(x));
                    let m = choose|m: int| 0 <= m < d.len() && d[m] == x;
                    assert(s[m] == x);
                } else {
                    assert(s[s.len() - 1] == x);
                }
            }
        }
    }
}

/// The characters of a string slice, in order.
pub fn chars_of(s: &str) -> (r: Vec<char>)
    ensures
        r@ == s@,
{
    broadcast use vstd::string::group_string_axioms;

    let mut r: Vec<char> = Vec::new();
    for c in it: s.chars()
        invariant
            r@ == it.seq().take(it.index() as int),
    {
        r.push(c);
    }
    r
}

/// Whether `c` is white space; the same test as `char::is_whitespace`.
pub fn is_white_space_char(c: char) -> (r: bool)
    ensures
        r == is_white_space(c),
{
    let u = c as u32;
    (0x9 <= u && u <= 0xd) || u == 0x20 || u == 0x85 || u == 0xa0 || u == 0x1680 || (0x2000 <= u
        && u <= 0x200a) || u == 0x2028 || u == 0x2029 || u == 0x202f || u == 0x205f || u == 0x3000
}

proof fn lemma_leading_step(s: Seq<char>, i: int, hi: int)
    requires
        0 <= i < hi <= s.len(),
        is_white_space(s[i]),
    ensures
        leading_white_space(s.subrange(i, hi)) == 1 + leading_white_space(s.subrange(i + 1, hi)),
{
    assert(s.subrange(i, hi).drop_first() =~= s.subrange(i + 1, hi));
}

proof fn lemma_trailing_step(s: Seq<char>, lo: int, j: int)
    requires
        0 <= lo < j <= s.len(),
        is_white_space(s[j - 1]),
    ensures
        trailing_white_space(s.subrange(lo, j)) == 1 + trailing_white_space(s.subrange(lo, j - 1)),
{
    assert(s.subrange(lo, j).drop_last() =~= s.subrange(lo, j - 1));
}

/// Where the window `v@.subrange(lo, hi)` starts once its leading white space is removed.
pub fn trim_start_window(v: &Vec<char>, lo: usize, hi: usize) -> (r: usize)
    requires
        lo <= hi <= v.len(),
    ensures
        lo <= r <= hi,
        v@.subrange(r as int, hi as int) == trim_start(v@.subrange(lo as int, hi as int)),
{
    let ghost s = v@.subrange(lo as int, hi as int);
    let mut i = lo;
    while i < hi && is_white_space_char(v[i])
        invariant
            lo <= i <= hi <= v.len(),
            s == v@.subrange(lo as int, hi as int),
            leading_white_space(s) == (i - lo) + leading_white_space(v@.subrange(i as int, hi as int)),
        decreases hi - i,
    {
        proof {
            lemma_leading_step(v@, i as int, hi as int);
        }
        i = i + 1;
    }
    proof {
        let t = v@.subrange(i as int, hi as int);
        if i < hi {
            assert(t[0] == v@[i as int]);
        }
        assert(leading_white_space(t) == 0);
        assert(trim_start(s) =~= t);
    }
    i
}

/// Where the window `v@.subrange(lo, hi)` ends once its trailing white space is removed.
pub fn trim_end_window(v: &Vec<char>, lo: usize, hi: usize) -> (r: usize)
    requires
        lo <= hi <= v.len(),
    ensures
        lo <= r <= hi,
        v@.subrange(lo as int, r as int) == trim_end(v@.subrange(lo as int, hi as int)),
{
    let mut j = hi;
    while j > lo && is_white_space_char(v[j - 1])
        invariant
            lo <= j <= hi <= v.len(),
            trailing_white_space(v@.subrange(lo as int, hi as int)) == (hi - j)
                + trailing_white_space(v@.subrange(lo as int, j as int)),
        decreases j - lo,
    {
        proof {
            lemma_trailing_step(v@, lo as int, j as int);
        }
        j = j - 1;
    }
    proof {
        let t = v@.subrange(lo as int, hi as int);
        let u = v@.subrange(lo as int, j as int);
        if j > lo {
            assert(u.last() == v@[j - 1]);
        }
        assert(trailing_white_space(u) == 0);
        assert(trim_end(t) =~= u);
    }
    j
}

/// The window of `v@.subrange(lo, hi)` that remains after trimming.
pub fn trim_window(v: &Vec<char>, lo: usize, hi: usize) -> (r: (usize, usize))
    requires
        lo <= hi <= v.len(),
    ensures
        lo <= r.0 <= r.1 <= hi,
        v@.subrange(r.0 as int, r.1 as int) == trim(v@.subrange(lo as int, hi as int)),
{
    let a = trim_start_window(v, lo, hi);
    let b = trim_end_window(v, a, hi);
    (a, b)
}

/// Whether `p` is a prefix of the window `v@.subrange(lo, hi)`.
pub fn window_starts_with(v: &Vec<char>, lo: usize, hi: usize, p: &Vec<char>) -> (r: bool)
    requires
        lo <= hi <= v.len(),
    ensures
        r == starts_with(v@.subrange(lo as int, hi as int), p@),
{
    if p.len() > hi - lo {
        return false;
    }
    let mut k: usize = 0;
    while k < p.len()
        invariant
            lo <= hi <= v.len(),
            p.len() <= hi - lo,
            k <= p.len(),
            forall|m: int| 0 <= m < k ==> v@[lo + m] == p@[m],
        decreases p.len() - k,
    {
        if v[lo + k] != p[k] {
            proof {
                let s = v@.subrange(lo as int, hi as int);
                assert(s.take(p.len() as int)[k as int] != p@[k as int]);
            }
            return false;
        }
        k = k + 1;
    }
    proof {
        let s = v@.subrange(lo as int, hi as int);
        assert(s.take(p.len() as int) =~= p@);
    }
    true
}

/// Whether `p` occurs at position `at` of the window `v@.subrange(lo, hi)`.
fn window_occurs_at(v: &Vec<char>, lo: usize, hi: usize, p: &Vec<char>, at: usize) -> (r: bool)
    requires
        lo <= hi <= v.len(),
        at <= hi - lo,
    ensures
        r == occurs_at(v@.subrange(lo as int, hi as int), p@, at as int),
{
    let r = window_starts_with(v, lo + at, hi, p);
    proof {
        let s = v@.subrange(lo as int, hi as int);
        let t = v@.subrange((lo + at) as int, hi as int);
        if p@.len() <= t.len() {
            assert(t.take(p@.len() as int) =~= s.subrange(at as int, at + p@.len()));
        }
    }
    r
}

/// Whether `p` is a suffix of the window `v@.subrange(lo, hi)`.
pub fn window_ends_with(v: &Vec<char>, lo: usize, hi: usize, p: &Vec<char>) -> (r: bool)
    requires
        lo <= hi <= v.len(),
    ensures
        r == ends_with(v@.subrange(lo as int, hi as int), p@),
{
    if p.len() > hi - lo {
        return false;
    }
    let r = window_starts_with(v, hi - p.len(), hi, p);
    proof {
        let s = v@.subrange(lo as int, hi as int);
        let t = v@.subrange((hi - p.len()) as int, hi as int);
        assert(t.take(p@.len() as int) =~= s.skip(s.len() - p@.len()));
    }
    r
}

/// Whether `p` occurs in the window `v@.subrange(lo, hi)`.
pub fn window_contains(v: &Vec<char>, lo: usize, hi: usize, p: &Vec<char>) -> (r: bool)
    requires
        lo <= hi <= v.len(),
    ensures
        r == contains(v@.subrange(lo as int, hi as int), p@),
{
    let ghost s = v@.subrange(lo as int, hi as int);
    if p.len() > hi - lo {
        assert forall|i: int| !#[trigger] occurs_at(s, p@, i) by {}
        return false;
    }
    if p.len() == 0 {
        assert(s.subrange(0, 0) =~= p@);
        assert(occurs_at(s, p@, 0));
        return true;
    }
    let last = hi - lo - p.len();
    let mut at: usize = 0;
    while at <= last
        invariant
            lo <= hi <= v.len(),
            0 < p.len() <= hi - lo,
            last == hi - lo - p.len(),
            at <= last + 1,
            s == v@.subrange(lo as int, hi as int),
            forall|i: int| 0 <= i < at ==> !#[trigger] occurs_at(s, p@, i),
        decreases last + 1 - at,
    {
        if window_occurs_at(v, lo, hi, p, at) {
            return true;
        }
        at = at + 1;
    }
    assert forall|i: int| !#[trigger] occurs_at(s, p@, i) by {}
    false
}

/// Whether two character sequences are equal.
pub fn chars_equal(a: &Vec<char>, b: &Vec<char>) -> (r: bool)
    ensures
        r == (a@ == b@),
{
    if a.len() != b.len() {
        return false;
    }
    let r = window_starts_with(a, 0, a.len(), b);
    proof {
        assert(a@.subrange(0, a@.len() as int) =~= a@);
        assert(a@.take(b@.len() as int) =~= a@);
    }
    r
}

/// Appends the items of `items` to `out`, each only where `out` does not hold
/// it yet.
pub fn extend_unique(out: &mut Vec<String>, items: &[&str], Ghost(before): Ghost<Seq<Seq<char>>>)
    requires
        string_views(old(out)@) == dedup(before),
    ensures
        string_views(final(out)@) == dedup(before + items@.map_values(|e: &str| e@)),
{
    let ghost all = items@.map_values(|e: &str| e@);
    let mut k: usize = 0;
    assert(before + all.take(0) =~= before);
    while k < items.len()
        invariant
            k <= items@.len(),
            all == items@.map_values(|e: &str| e@),
            string_views(out@) == dedup(before + all.take(k as int)),
        decreases items@.len() - k,
    {
        let item: String = items[k].to_owned();
        let ghost prev = string_views(out@);
        let mut found = false;
        let mut m: usize = 0;
        while m < out.len()
            invariant
                m <= out@.len(),
                prev == string_views(out@),
                item@ == items@[k as int]@,
                found == (exists|i: int| 0 <= i < m && prev[i] == item@),
            decreases out@.len() - m,
        {
            assert(prev[m as int] == out@[m as int]@);
            if out[m] == item {
                found = true;
            }
            m = m + 1;
        }
        proof {
            let next = before + all.take(k + 1);
            assert(next.drop_last() =~= before + all.take(k as int));
            assert(next.last() == item@);
            if found {
                let i = choose|i: int| 0 <= i < m && prev[i] == item@;
                assert(prev.contains(item@));
            } else {
                assert(!prev.contains(item@));
            }
        }
        if !found {
            out.push(item);
            assert(string_views(out@) =~= prev.push(item@));
        }
        k = k + 1;
    }
    assert(all.take(items@.len() as int) =~= all);
}

} // verus!
