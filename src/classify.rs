//! Classification of dump lines and extraction of the table name from a
//! table-definition line.
use vstd::prelude::*;
use vstd::std_specs::iter::IteratorSpec;
use crate::text::{has_prefix, is_space, is_whitespace, starts_with};

verus! {

broadcast use vstd::string::group_string_axioms;

/// Prefix of a table-definition statement.
pub const CREATE_TABLE: &'static str = "CREATE TABLE";

/// Prefix of a row-insertion statement.
pub const INSERT_INTO: &'static str = "INSERT INTO";

/// The line that releases the table locks and ends any phase.
pub const UNLOCK_TABLES: &'static str = "UNLOCK TABLES;";

/// The quoting character stripped from table names.
pub const QUOTE: char = '`';

/// The category of one dump line.
#[derive(Clone, Copy, Debug, PartialEq, Eq, Structural)]
pub enum LineKind {
    TableDefinitionStart,
    RowInsertionStart,
    PhaseEndMarker,
    Other,
}

/// The category of `line`, decided by its literal prefix.
pub open spec fn kind_of(line: Seq<char>) -> LineKind {
    if has_prefix(line, CREATE_TABLE@) {
        LineKind::TableDefinitionStart
    } else if has_prefix(line, INSERT_INTO@) {
        LineKind::RowInsertionStart
    } else if has_prefix(line, UNLOCK_TABLES@) {
        LineKind::PhaseEndMarker
    } else {
        LineKind::Other
    }
}

/// The maximal runs of non-white-space characters of `s`, in order.
pub open spec fn words(s: Seq<char>) -> Seq<Seq<char>>
    decreases s.len(),
{
    if s.len() == 0 {
        Seq::empty()
    } else {
        let w = words(s.drop_last());
        let c = s.last();
        if is_space(c) {
            w
        } else if s.len() >= 2 && !is_space(s[s.len() - 2]) {
            w.update(w.len() - 1, w.last().push(c))
        } else {
            w.push(seq![c])
        }
    }
}

/// A text that ends inside a word has at least one word.
proof fn lemma_words_nonempty(s: Seq<char>)
    requires
        s.len() > 0,
        !is_space(s.last()),
    ensures
        words(s).len() > 0,
    decreases s.len(),
{
    if s.len() >= 2 && !is_space(s[s.len() - 2]) {
        lemma_words_nonempty(s.drop_last());
    }
}

/// `w` with every leading quote removed.
pub open spec fn strip_leading(w: Seq<char>) -> Seq<char>
    decreases w.len(),
{
    if w.len() > 0 && w[0] == QUOTE {
        strip_leading(w.drop_first())
    } else {
        w
    }
}

/// `w` with every trailing quote removed.
pub open spec fn strip_trailing(w: Seq<char>) -> Seq<char>
    decreases w.len(),
{
    if w.len() > 0 && w.last() == QUOTE {
        strip_trailing(w.drop_last())
    } else {
        w
    }
}

/// `w` with every leading and trailing quote removed.
pub open spec fn unquote(w: Seq<char>) -> Seq<char> {
    strip_trailing(strip_leading(w))
}

/// The table named by a table-definition line: its third word, unquoted;
/// `None` when the line has fewer than three words.
pub open spec fn table_name_of(line: Seq<char>) -> Option<Seq<char>> {
    let ws = words(line);
    if ws.len() >= 3 {
        Some(unquote(ws[2]))
    } else {
        None
    }
}

/// The category of `line`.
pub fn classify_line(line: &str) -> (r: LineKind)
    ensures
        r == kind_of(line@),
{
    if starts_with(line, CREATE_TABLE) {
        LineKind::TableDefinitionStart
    } else if starts_with(line, INSERT_INTO) {
        LineKind::RowInsertionStart
    } else if starts_with(line, UNLOCK_TABLES) {
        LineKind::PhaseEndMarker
    } else {
        LineKind::Other
    }
}

/// Bounds `[lo, hi)` of `unquote(w)` within `w`.
fn unquoted_bounds(w: &Vec<char>) -> (r: (usize, usize))
    ensures
        r.0 <= r.1 <= w@.len(),
        w@.subrange(r.0 as int, r.1 as int) == unquote(w@),
{
    let n = w.len();
    let mut lo: usize = 0;
    assert(w@.subrange(0, n as int) =~= w@);
    while lo < n && w[lo] == QUOTE
        invariant
            n == w@.len(),
            lo <= n,
            strip_leading(w@) == strip_leading(w@.subrange(lo as int, n as int)),
        decreases n - lo,
    {
        assert(w@.subrange(lo as int, n as int).drop_first() =~= w@.subrange(lo + 1, n as int));
        lo = lo + 1;
    }
    let ghost u = w@.subrange(lo as int, n as int);
    assert(strip_leading(w@) == u);
    let mut hi: usize = n;
    while hi > lo && w[hi - 1] == QUOTE
        invariant
            n == w@.len(),
            lo <= hi <= n,
            u == w@.subrange(lo as int, n as int),
            strip_trailing(u) == strip_trailing(w@.subrange(lo as int, hi as int)),
        decreases hi,
    {
        assert(w@.subrange(lo as int, hi as int).drop_last() =~= w@.subrange(
            lo as int,
            hi - 1,
        ));
        hi = hi - 1;
    }
    (lo, hi)
}

/// The table named by a table-definition line: the third white-space
/// separated word of `line` with its surrounding quotes removed, or `None`
/// when `line` has fewer than three words.
pub fn extract_table_name(line: &str) -> (r: Option<String>)
    ensures
        r is Some <==> table_name_of(line@) is Some,
        r is Some ==> r->0@ == table_name_of(line@)->0,
{
    let len = line.unicode_len();
    let ghost s = line@;
    let mut it = line.chars();
    let mut i: usize = 0;
    // number of words seen so far, counted up to four
    let mut count: usize = 0;
    let mut in_word = false;
    let mut start: usize = 0;
    let mut tok: Vec<char> = Vec::new();
    while i < len
        invariant
            len == s.len(),
            i <= len,
            it.obeys_prophetic_iter_laws(),
            it.remaining() == s.skip(i as int),
            count <= 4,
            count == words(s.take(i as int)).len() || (count == 4 && words(s.take(
                i as int,
            )).len() >= 4),
            in_word == (i > 0 && !is_space(s[i - 1])),
            count >= 3 ==> tok@ == words(s.take(i as int))[2],
            count == 3 && in_word ==> start + tok@.len() == i,
            count >= 3 ==> start + tok@.len() <= i && tok@ == s.subrange(
                start as int,
                start + tok@.len(),
            ),
        decreases len - i,
    {
        let c = match it.next() {
            Some(c) => c,
            None => {
                return None;
            },
        };
        let ghost w = words(s.take(i as int));
        assert(s.take(i + 1).drop_last() =~= s.take(i as int));
        assert(s.take(i + 1).last() == c);
        if is_whitespace(c) {
            in_word = false;
        } else if in_word {
            assert(s.take(i + 1)[i - 1] == s[i - 1]);
            assert(s.take(i as int).last() == s[i - 1]);
            proof {
                lemma_words_nonempty(s.take(i as int));
            }
            if count == 3 {
                assert(s.subrange(start as int, start + tok@.len() + 1) =~= tok@.push(c));
                tok.push(c);
            }
        } else {
            if i > 0 {
                assert(s.take(i + 1)[i - 1] == s[i - 1]);
            }
            if count == 2 {
                start = i;
                tok = Vec::new();
                tok.push(c);
                assert(tok@ =~= seq![c]);
                assert(s.subrange(start as int, start + 1) =~= seq![c]);
            }
            if count < 4 {
                count = count + 1;
            }
            in_word = true;
        }
        i = i + 1;
    }
    assert(s.take(len as int) =~= s);
    if count >= 3 {
        let (lo, hi) = unquoted_bounds(&tok);
        assert(s.subrange(start + lo, start + hi) =~= tok@.subrange(lo as int, hi as int));
        let name = line.substring_char(start + lo, start + hi);
        Some(name.to_owned())
    } else {
        None
    }
}

} // verus!
