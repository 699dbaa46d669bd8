//! Character-level helpers over `str`, stated over `Seq<char>`.
use vstd::prelude::*;
use vstd::std_specs::iter::IteratorSpec;

verus! {

broadcast use vstd::string::group_string_axioms;

/// Whether `s` begins with `p`.
pub open spec fn has_prefix(s: Seq<char>, p: Seq<char>) -> bool {
    p.len() <= s.len() && s.subrange(0, p.len() as int) == p
}

/// The Unicode `White_Space` property.
pub open spec fn is_space(c: char) -> bool {
    let u = c as u32;
    ||| 0x09 <= u <= 0x0d
    ||| u == 0x20
    ||| u == 0x85
    ||| u == 0xa0
    ||| u == 0x1680
    ||| 0x2000 <= u <= 0x200a
    ||| u == 0x2028
    ||| u == 0x2029
    ||| u == 0x202f
    ||| u == 0x205f
    ||| u == 0x3000
}

/// Whether `c` is Unicode white space.
pub fn is_whitespace(c: char) -> (r: bool)
    ensures
        r == is_space(c),
{
    let u = c as u32;
    (0x09 <= u && u <= 0x0d) || u == 0x20 || u == 0x85 || u == 0xa0 || u == 0x1680 || (0x2000
        <= u && u <= 0x200a) || u == 0x2028 || u == 0x2029 || u == 0x202f || u == 0x205f || u
        == 0x3000
}

/// Whether the text `s` begins with the text `p`; reads no further into `s`
/// than the length of `p`.
pub fn starts_with(s: &str, p: &str) -> (r: bool)
    ensures
        r == has_prefix(s@, p@),
{
    let n = p.unicode_len();
    let mut it = s.chars();
    let mut i: usize = 0;
    while i < n
        invariant
            n == p@.len(),
            i <= n,
            it.obeys_prophetic_iter_laws(),
            it.remaining() == s@.skip(i as int),
            i <= s@.len(),
            s@.subrange(0, i as int) == p@.subrange(0, i as int),
        decreases n - i,
    {
        let c = it.next();
        match c {
            None => {
                return false;
            },
            Some(c) => {
                if c != p.get_char(i) {
                    assert(s@[i as int] != p@[i as int]);
                    proof {
                        if n <= s@.len() {
                            assert(s@.subrange(0, n as int)[i as int] != p@[i as int]);
                        }
                    }
                    return false;
                }
                assert(s@.subrange(0, i + 1) =~= s@.subrange(0, i as int).push(c));
                assert(p@.subrange(0, i + 1) =~= p@.subrange(0, i as int).push(c));
                i = i + 1;
            },
        }
    }
    assert(p@.subrange(0, n as int) =~= p@);
    true
}

} // verus!

verus! {

/// `w` with every leading white-space character removed.
pub open spec fn trim_start(w: Seq<char>) -> Seq<char>
    decreases w.len(),
{
    if w.len() > 0 && is_space(w[0]) {
        trim_start(w.drop_first())
    } else {
        w
    }
}

/// `w` with every trailing white-space character removed.
pub open spec fn trim_end(w: Seq<char>) -> Seq<char>
    decreases w.len(),
{
    if w.len() > 0 && is_space(w.last()) {
        trim_end(w.drop_last())
    } else {
        w
    }
}

/// `w` with leading and trailing white space removed.
pub open spec fn trim(w: Seq<char>) -> Seq<char> {
    trim_end(trim_start(w))
}

/// Bounds `[lo, hi)` of `trim(w)` within `w`.
pub fn trimmed_bounds(w: &Vec<char>) -> (r: (usize, usize))
    ensures
        r.0 <= r.1 <= w@.len(),
        w@.subrange(r.0 as int, r.1 as int) == trim(w@),
{
    let n = w.len();
    let mut lo: usize = 0;
    assert(w@.subrange(0, n as int) =~= w@);
    while lo < n && is_whitespace(w[lo])
        invariant
            n == w@.len(),
            lo <= n,
            trim_start(w@) == trim_start(w@.subrange(lo as int, n as int)),
        decreases n - lo,
    {
        assert(w@.subrange(lo as int, n as int).drop_first() =~= w@.subrange(lo + 1, n as int));
        lo = lo + 1;
    }
    let ghost u = w@.subrange(lo as int, n as int);
    assert(trim_start(w@) == u);
    let mut hi: usize = n;
    while hi > lo && is_whitespace(w[hi - 1])
        invariant
            n == w@.len(),
            lo <= hi <= n,
            u == w@.subrange(lo as int, n as int),
            trim_end(u) == trim_end(w@.subrange(lo as int, hi as int)),
        decreases hi,
    {
        assert(w@.subrange(lo as int, hi as int).drop_last() =~= w@.subrange(lo as int, hi - 1));
        hi = hi - 1;
    }
    (lo, hi)
}

} // verus!
