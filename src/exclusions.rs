//! The exclusion set given on the command line: option values holding
//! comma-separated table names.
use vstd::prelude::*;
use vstd::std_specs::iter::IteratorSpec;
use crate::text::{trim, trimmed_bounds};

verus! {

broadcast use vstd::string::group_string_axioms;

/// The separator between table names in one option value.
pub const SEPARATOR: char = ',';

/// The parts of `s` between separators, in order; an empty text has one
/// empty part.
pub open spec fn split_parts(s: Seq<char>) -> Seq<Seq<char>>
    decreases s.len(),
{
    if s.len() == 0 {
        seq![Seq::empty()]
    } else {
        let w = split_parts(s.drop_last());
        if s.last() == SEPARATOR {
            w.push(Seq::empty())
        } else {
            w.update(w.len() - 1, w.last().push(s.last()))
        }
    }
}

/// The table names one option value gives: its parts, trimmed.
pub open spec fn names_in(value: Seq<char>) -> Seq<Seq<char>> {
    split_parts(value).map_values(|p: Seq<char>| trim(p))
}

/// The table names all option values give, in order.
pub open spec fn names_in_all(values: Seq<Seq<char>>) -> Seq<Seq<char>>
    decreases values.len(),
{
    if values.len() == 0 {
        Seq::empty()
    } else {
        names_in_all(values.drop_last()) + names_in(values.last())
    }
}

/// The texts of `v`.
pub open spec fn texts(v: Seq<String>) -> Seq<Seq<char>> {
    v.map_values(|s: String| s@)
}

proof fn lemma_split_parts_nonempty(s: Seq<char>)
    ensures
        split_parts(s).len() >= 1,
    decreases s.len(),
{
    if s.len() > 0 {
        lemma_split_parts_nonempty(s.drop_last());
    }
}

/// Appends to `out` the trimmed names that `value` gives.
pub fn push_names(value: &str, out: &mut Vec<String>)
    ensures
        texts(final(out)@) == texts(old(out)@) + names_in(value@),
{
    let len = value.unicode_len();
    let ghost s = value@;
    let mut it = value.chars();
    let mut i: usize = 0;
    let mut start: usize = 0;
    let mut part: Vec<char> = Vec::new();
    proof {
        lemma_split_parts_nonempty(s.take(0));
    }
    assert(s.take(0) =~= Seq::<char>::empty());
    while i < len
        invariant
            len == s.len(),
            s == value@,
            start <= i <= len,
            it.obeys_prophetic_iter_laws(),
            it.remaining() == s.skip(i as int),
            part@ == s.subrange(start as int, i as int),
            split_parts(s.take(i as int)).len() >= 1,
            split_parts(s.take(i as int)).last() == part@,
            texts(out@) == texts(old(out)@) + split_parts(s.take(i as int)).drop_last().map_values(
                |p: Seq<char>| trim(p),
            ),
        decreases len - i,
    {
        let c = match it.next() {
            Some(c) => c,
            None => {
                return;
            },
        };
        let ghost w = split_parts(s.take(i as int));
        assert(s.take(i + 1).drop_last() =~= s.take(i as int));
        assert(s.take(i + 1).last() == c);
        if c == SEPARATOR {
            let (lo, hi) = trimmed_bounds(&part);
            assert(part@.len() == i - start);
            assert(s.subrange(start + lo, start + hi) =~= part@.subrange(lo as int, hi as int));
            let name = value.substring_char(start + lo, start + hi).to_owned();
            let ghost before = out@;
            out.push(name);
            assert(texts(out@) =~= texts(before).push(trim(part@)));
            assert(w.push(Seq::empty()).drop_last() =~= w);
            assert(w.map_values(|p: Seq<char>| trim(p)) =~= w.drop_last().map_values(
                |p: Seq<char>| trim(p),
            ).push(trim(part@)));
            assert(texts(out@) =~= texts(old(out)@) + w.map_values(|p: Seq<char>| trim(p)));
            part = Vec::new();
            start = i + 1;
            assert(part@ =~= s.subrange(start as int, i + 1));
        } else {
            part.push(c);
            assert(part@ =~= s.subrange(start as int, i + 1));
            assert(w.update(w.len() - 1, w.last().push(c)).drop_last() =~= w.drop_last());
        }
        i = i + 1;
    }
    assert(s.take(len as int) =~= s);
    let (lo, hi) = trimmed_bounds(&part);
    assert(part@.len() == i - start);
    assert(s.subrange(start + lo, start + hi) =~= part@.subrange(lo as int, hi as int));
    let name = value.substring_char(start + lo, start + hi).to_owned();
    let ghost w = split_parts(s);
    let ghost before = out@;
    out.push(name);
    assert(texts(out@) =~= texts(before).push(trim(part@)));
    assert(w.map_values(|p: Seq<char>| trim(p)) =~= w.drop_last().map_values(
        |p: Seq<char>| trim(p),
    ).push(trim(part@)));
    assert(texts(final(out)@) =~= texts(old(out)@) + names_in(value@));
}

/// The exclusion list given by the option values `values`: each value is
/// split at commas and every part trimmed of white space.
pub fn parse_exclusions(values: &Vec<String>) -> (r: Vec<String>)
    ensures
        texts(r@) == names_in_all(texts(values@)),
{
    let mut out: Vec<String> = Vec::new();
    let mut k: usize = 0;
    assert(texts(values@).take(0) =~= Seq::<Seq<char>>::empty());
    while k < values.len()
        invariant
            k <= values@.len(),
            texts(out@) == names_in_all(texts(values@).take(k as int)),
        decreases values@.len() - k,
    {
        push_names(values[k].as_str(), &mut out);
        assert(texts(values@).take(k + 1).drop_last() =~= texts(values@).take(k as int));
        k = k + 1;
    }
    assert(texts(values@).take(k as int) =~= texts(values@));
    out
}

} // verus!
