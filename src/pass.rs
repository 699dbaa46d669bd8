//! A whole pass over a dump, stated over the sequence of its lines, and the
//! laws that hold of every pass.
use vstd::prelude::*;
use crate::classify::{kind_of, table_name_of, LineKind};
use crate::exclusions::texts;
use crate::tracker::{
    closes_phase, elapsed, forwards, name_set, next_phase, next_skip, opens_table, Observation,
    PhaseKind, PhaseModel, Tracker,
};

verus! {

/// The skip flag after processing `lines` from the start of a dump.
pub open spec fn skip_after(lines: Seq<Seq<char>>, excluded: Set<Seq<char>>) -> bool
    decreases lines.len(),
{
    if lines.len() == 0 {
        false
    } else {
        next_skip(skip_after(lines.drop_last(), excluded), excluded, lines.last())
    }
}

/// The phase after processing `lines`, the line `lines[i]` read at clock
/// reading `times[i]`.
pub open spec fn phase_after(
    lines: Seq<Seq<char>>,
    times: Seq<u64>,
    excluded: Set<Seq<char>>,
) -> PhaseModel
    decreases lines.len(),
{
    if lines.len() == 0 {
        PhaseModel::Idle
    } else {
        let before = lines.drop_last();
        next_phase(
            phase_after(before, times, excluded),
            skip_after(before, excluded),
            lines.last(),
            times[lines.len() - 1],
        )
    }
}

/// The number of lines of `lines` that close a phase.
pub open spec fn phase_closes(
    lines: Seq<Seq<char>>,
    times: Seq<u64>,
    excluded: Set<Seq<char>>,
) -> nat
    decreases lines.len(),
{
    if lines.len() == 0 {
        0
    } else {
        let before = lines.drop_last();
        phase_closes(before, times, excluded) + if closes_phase(
            phase_after(before, times, excluded),
            lines.last(),
        ) {
            1nat
        } else {
            0nat
        }
    }
}

/// A timing record as plain values: phase kind, table, duration.
pub open spec fn record_of(o: Observation) -> (PhaseKind, Seq<char>, u64) {
    (o.kind, o.table_name@, o.duration_nanos)
}

/// The record of closing the phase `p` at clock reading `now`.
pub open spec fn closing_of(p: PhaseModel, now: u64) -> (PhaseKind, Seq<char>, u64) {
    match p {
        PhaseModel::Active { kind, name, started_at } => (kind, name, elapsed(started_at, now)),
        PhaseModel::Idle => (PhaseKind::DefiningTable, Seq::empty(), 0),
    }
}

/// The records of the phases that the lines of `lines` close, in order.
pub open spec fn closing_records(
    lines: Seq<Seq<char>>,
    times: Seq<u64>,
    excluded: Set<Seq<char>>,
) -> Seq<(PhaseKind, Seq<char>, u64)>
    decreases lines.len(),
{
    if lines.len() == 0 {
        Seq::empty()
    } else {
        let before = lines.drop_last();
        let p = phase_after(before, times, excluded);
        closing_records(before, times, excluded) + if closes_phase(p, lines.last()) {
            seq![closing_of(p, times[lines.len() - 1])]
        } else {
            Seq::empty()
        }
    }
}

/// The records of a whole logged pass: one for each phase that a line
/// closes, then one for the phase still open when the input ends at
/// `end_time`.
pub open spec fn pass_records(
    lines: Seq<Seq<char>>,
    times: Seq<u64>,
    end_time: u64,
    excluded: Set<Seq<char>>,
) -> Seq<(PhaseKind, Seq<char>, u64)> {
    let last = phase_after(lines, times, excluded);
    closing_records(lines, times, excluded) + if last is Active {
        seq![closing_of(last, end_time)]
    } else {
        Seq::empty()
    }
}

/// The number of phases open when the input ends: one or none.
pub open spec fn open_at_end(lines: Seq<Seq<char>>, times: Seq<u64>, excluded: Set<Seq<char>>) -> nat {
    if phase_after(lines, times, excluded) is Active {
        1
    } else {
        0
    }
}

/// A logged pass reports exactly one record for each phase close, counting
/// the implicit close of a phase still open at the end of the input.
pub proof fn law_one_record_per_phase_close(
    lines: Seq<Seq<char>>,
    times: Seq<u64>,
    end_time: u64,
    excluded: Set<Seq<char>>,
)
    ensures
        pass_records(lines, times, end_time, excluded).len() == phase_closes(
            lines,
            times,
            excluded,
        ) + open_at_end(lines, times, excluded),
{
    lemma_closing_records_len(lines, times, excluded);
}

proof fn lemma_closing_records_len(
    lines: Seq<Seq<char>>,
    times: Seq<u64>,
    excluded: Set<Seq<char>>,
)
    ensures
        closing_records(lines, times, excluded).len() == phase_closes(lines, times, excluded),
    decreases lines.len(),
{
    if lines.len() > 0 {
        lemma_closing_records_len(lines.drop_last(), times, excluded);
    }
}

/// The lines written to the output when processing `lines`, in order.
pub open spec fn forwarded(lines: Seq<Seq<char>>, excluded: Set<Seq<char>>) -> Seq<Seq<char>>
    decreases lines.len(),
{
    if lines.len() == 0 {
        Seq::empty()
    } else {
        let before = lines.drop_last();
        forwarded(before, excluded) + if forwards(skip_after(before, excluded), lines.last()) {
            seq![lines.last()]
        } else {
            Seq::empty()
        }
    }
}

/// The table named by the last table-definition line of `lines`, if any.
pub open spec fn current_table(lines: Seq<Seq<char>>) -> Option<Seq<char>>
    decreases lines.len(),
{
    if lines.len() == 0 {
        None
    } else if opens_table(lines.last()) {
        table_name_of(lines.last())
    } else {
        current_table(lines.drop_last())
    }
}

/// Whether `line`, coming after `before`, is a row insertion of an excluded
/// table.
pub open spec fn is_excluded_insertion(
    before: Seq<Seq<char>>,
    line: Seq<char>,
    excluded: Set<Seq<char>>,
) -> bool {
    &&& kind_of(line) == LineKind::RowInsertionStart
    &&& current_table(before) matches Some(t) && excluded.contains(t)
}

/// `lines` without the row insertions of excluded tables.
pub open spec fn without_excluded_insertions(
    lines: Seq<Seq<char>>,
    excluded: Set<Seq<char>>,
) -> Seq<Seq<char>>
    decreases lines.len(),
{
    if lines.len() == 0 {
        Seq::empty()
    } else {
        let before = lines.drop_last();
        without_excluded_insertions(before, excluded) + if is_excluded_insertion(
            before,
            lines.last(),
            excluded,
        ) {
            Seq::empty()
        } else {
            seq![lines.last()]
        }
    }
}

/// The skip flag is set exactly when the last table opened is excluded.
proof fn lemma_skip_is_current_table_excluded(lines: Seq<Seq<char>>, excluded: Set<Seq<char>>)
    ensures
        skip_after(lines, excluded) == (current_table(lines) matches Some(t) && excluded.contains(
            t,
        )),
    decreases lines.len(),
{
    if lines.len() > 0 {
        lemma_skip_is_current_table_excluded(lines.drop_last(), excluded);
    }
}

/// The output of a pass is its input with exactly the row insertions of
/// excluded tables removed, every other line kept in order.
pub proof fn law_output_is_input_without_excluded_insertions(
    lines: Seq<Seq<char>>,
    excluded: Set<Seq<char>>,
)
    ensures
        forwarded(lines, excluded) == without_excluded_insertions(lines, excluded),
    decreases lines.len(),
{
    if lines.len() > 0 {
        law_output_is_input_without_excluded_insertions(lines.drop_last(), excluded);
        lemma_skip_is_current_table_excluded(lines.drop_last(), excluded);
    }
}

/// Filtering keeps every table-definition line, so the output names the same
/// current table as the input, and filtering it again changes nothing.
proof fn lemma_forwarded_stable(lines: Seq<Seq<char>>, excluded: Set<Seq<char>>)
    ensures
        current_table(forwarded(lines, excluded)) == current_table(lines),
        forwarded(forwarded(lines, excluded), excluded) == forwarded(lines, excluded),
    decreases lines.len(),
{
    if lines.len() > 0 {
        let before = lines.drop_last();
        let l = lines.last();
        let f = forwarded(before, excluded);
        lemma_forwarded_stable(before, excluded);
        lemma_skip_is_current_table_excluded(before, excluded);
        lemma_skip_is_current_table_excluded(f, excluded);
        if forwards(skip_after(before, excluded), l) {
            assert(forwarded(lines, excluded) == f.push(l));
            assert(f.push(l).drop_last() =~= f);
            assert(f.push(l).last() == l);
        } else {
            assert(forwarded(lines, excluded) =~= f);
        }
    }
}

/// Filtering is idempotent: filtering the output again with the same
/// exclusion set yields the same output.
pub proof fn law_filter_idempotent(lines: Seq<Seq<char>>, excluded: Set<Seq<char>>)
    ensures
        forwarded(forwarded(lines, excluded), excluded) == forwarded(lines, excluded),
{
    lemma_forwarded_stable(lines, excluded);
}

/// A table-definition line is always forwarded, even for an excluded table;
/// every row insertion after an excluded table's definition is dropped until
/// another table is opened; and no line but a row insertion is ever dropped.
pub proof fn law_definitions_kept_insertions_dropped(
    lines: Seq<Seq<char>>,
    excluded: Set<Seq<char>>,
    i: int,
    j: int,
)
    requires
        0 <= i < j < lines.len(),
        opens_table(lines[i]),
        excluded.contains(table_name_of(lines[i])->0),
        forall|k: int| i < k < j ==> !opens_table(#[trigger] lines[k]),
    ensures
        forwards(skip_after(lines.take(i), excluded), lines[i]),
        kind_of(lines[j]) == LineKind::RowInsertionStart ==> !forwards(
            skip_after(lines.take(j), excluded),
            lines[j],
        ),
        kind_of(lines[j]) != LineKind::RowInsertionStart ==> forwards(
            skip_after(lines.take(j), excluded),
            lines[j],
        ),
{
    lemma_skip_is_current_table_excluded(lines.take(j), excluded);
    lemma_current_table_since(lines, i, j);
}

/// The table last opened before `j` is the one opened at `i` when no line in
/// between opens a table.
proof fn lemma_current_table_since(lines: Seq<Seq<char>>, i: int, j: int)
    requires
        0 <= i < j <= lines.len(),
        opens_table(lines[i]),
        forall|k: int| i < k < j ==> !opens_table(#[trigger] lines[k]),
    ensures
        current_table(lines.take(j)) == table_name_of(lines[i]),
    decreases j - i,
{
    let t = lines.take(j);
    assert(t.last() == lines[j - 1]);
    assert(t.drop_last() =~= lines.take(j - 1));
    if j - 1 > i {
        lemma_current_table_since(lines, i, j - 1);
    }
}

/// Runs a whole pass over `lines`, line `lines[i]` read at clock reading
/// `times[i]` and the input ending at `end_time`: the forwarded lines and the
/// timing records, in order.
pub fn process_lines(
    lines: &Vec<String>,
    times: &Vec<u64>,
    end_time: u64,
    excluded: Vec<String>,
    log: bool,
) -> (r: (Vec<String>, Vec<Observation>))
    requires
        times@.len() == lines@.len(),
    ensures
        texts(r.0@) == forwarded(texts(lines@), name_set(excluded@)),
        log ==> r.1@.map_values(|o: Observation| record_of(o)) == pass_records(
            texts(lines@),
            times@,
            end_time,
            name_set(excluded@),
        ),
        !log ==> r.1@.len() == 0,
{
    let ghost ex = name_set(excluded@);
    let ghost all = texts(lines@);
    let mut tracker = Tracker::new(excluded, log);
    let mut out: Vec<String> = Vec::new();
    let mut records: Vec<Observation> = Vec::new();
    let mut i: usize = 0;
    assert(all.take(0) =~= Seq::<Seq<char>>::empty());
    while i < lines.len()
        invariant
            i <= lines@.len(),
            times@.len() == lines@.len(),
            all == texts(lines@),
            tracker.excluded_set() == ex,
            tracker.logging() == log,
            tracker.skip_flag() == skip_after(all.take(i as int), ex),
            tracker.phase_model() == phase_after(all.take(i as int), times@, ex),
            texts(out@) == forwarded(all.take(i as int), ex),
            log ==> records@.map_values(|o: Observation| record_of(o)) == closing_records(
                all.take(i as int),
                times@,
                ex,
            ),
            !log ==> records@.len() == 0,
        decreases lines@.len() - i,
    {
        let line = &lines[i];
        let outcome = tracker.step(line.as_str(), times[i]);
        let ghost before = out@;
        if outcome.forward {
            out.push(line.clone());
            assert(texts(out@) =~= texts(before).push(line@));
        }
        let ghost recs = records@;
        if let Some(o) = outcome.observation {
            records.push(o);
            assert(records@.map_values(|o: Observation| record_of(o)) =~= recs.map_values(
                |o: Observation| record_of(o),
            ).push(record_of(o)));
        }
        assert(all.take(i + 1).drop_last() =~= all.take(i as int));
        assert(all.take(i + 1).last() == line@);
        assert(texts(out@) =~= forwarded(all.take(i + 1), ex));
        assert(log ==> records@.map_values(|o: Observation| record_of(o)) =~= closing_records(
            all.take(i + 1),
            times@,
            ex,
        ));
        i = i + 1;
    }
    assert(all.take(i as int) =~= all);
    let ghost recs = records@;
    if let Some(o) = tracker.finish(end_time) {
        records.push(o);
        assert(records@.map_values(|o: Observation| record_of(o)) =~= recs.map_values(
            |o: Observation| record_of(o),
        ).push(record_of(o)));
    }
    assert(log ==> records@.map_values(|o: Observation| record_of(o)) =~= pass_records(
        all,
        times@,
        end_time,
        ex,
    ));
    (out, records)
}

} // verus!
