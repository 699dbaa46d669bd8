//! The phase tracker: a single-pass state machine over classified dump lines
//! that decides which lines are forwarded and when a phase's timing is
//! reported.
use vstd::prelude::*;
use crate::classify::{
    classify_line, extract_table_name, kind_of, table_name_of, LineKind,
};

verus! {

/// The two kinds of measured phase.
#[derive(Clone, Copy, Debug, PartialEq, Eq, Structural)]
pub enum PhaseKind {
    DefiningTable,
    InsertingRows,
}

/// What section of the dump is being emitted, with the table it concerns and
/// the clock reading (in nanoseconds) at which it began.
#[derive(Debug)]
pub enum Phase {
    Idle,
    DefiningTable { name: String, started_at: u64 },
    InsertingRows { name: String, started_at: u64 },
}

/// Mathematical model of a [`Phase`].
pub enum PhaseModel {
    Idle,
    Active { kind: PhaseKind, name: Seq<char>, started_at: u64 },
}

impl View for Phase {
    type V = PhaseModel;

    open spec fn view(&self) -> PhaseModel {
        match self {
            Phase::Idle => PhaseModel::Idle,
            Phase::DefiningTable { name, started_at } => PhaseModel::Active {
                kind: PhaseKind::DefiningTable,
                name: name@,
                started_at: *started_at,
            },
            Phase::InsertingRows { name, started_at } => PhaseModel::Active {
                kind: PhaseKind::InsertingRows,
                name: name@,
                started_at: *started_at,
            },
        }
    }
}

/// One timing record: which phase closed, for which table, and how long it
/// lasted in nanoseconds.
#[derive(Debug)]
pub struct Observation {
    pub kind: PhaseKind,
    pub table_name: String,
    pub duration_nanos: u64,
}

/// What the tracker decided for one line.
#[derive(Debug)]
pub struct StepOutcome {
    /// The category of the line.
    pub kind: LineKind,
    /// Whether the line is written to the output.
    pub forward: bool,
    /// The timing record of the phase this line closed, when logging.
    pub observation: Option<Observation>,
    /// Whether the line opened a new table-definition phase.
    pub opened_table: bool,
}

/// Time from `start` to `now`; zero if the clock went backwards.
pub open spec fn elapsed(start: u64, now: u64) -> u64 {
    if now >= start {
        (now - start) as u64
    } else {
        0
    }
}

/// Whether `o` is the record of closing the active phase `p` at `now`.
pub open spec fn is_closing_record(o: Observation, p: PhaseModel, now: u64) -> bool {
    p matches PhaseModel::Active { kind, name, started_at } && o.kind == kind && o.table_name@
        == name && o.duration_nanos == elapsed(started_at, now)
}

/// Whether `line` opens a new table-definition phase.
pub open spec fn opens_table(line: Seq<char>) -> bool {
    kind_of(line) == LineKind::TableDefinitionStart && table_name_of(line) is Some
}

/// Whether processing `line` in phase `p` closes `p`, which is when its
/// timing is reported.
pub open spec fn closes_phase(p: PhaseModel, line: Seq<char>) -> bool {
    match kind_of(line) {
        LineKind::TableDefinitionStart => table_name_of(line) is Some && p is Active,
        LineKind::RowInsertionStart => p matches PhaseModel::Active { kind, .. } && kind
            == PhaseKind::DefiningTable,
        LineKind::PhaseEndMarker => p matches PhaseModel::Active { kind, .. } && kind
            == PhaseKind::InsertingRows,
        LineKind::Other => false,
    }
}

/// The phase after processing `line` at `now`, from phase `p` with skip flag
/// `skip`.
pub open spec fn next_phase(p: PhaseModel, skip: bool, line: Seq<char>, now: u64) -> PhaseModel {
    match kind_of(line) {
        LineKind::TableDefinitionStart => match table_name_of(line) {
            Some(name) => PhaseModel::Active {
                kind: PhaseKind::DefiningTable,
                name,
                started_at: now,
            },
            None => p,
        },
        LineKind::RowInsertionStart => match p {
            PhaseModel::Active { kind, name, .. } => if kind == PhaseKind::DefiningTable
                && !skip {
                PhaseModel::Active { kind: PhaseKind::InsertingRows, name, started_at: now }
            } else {
                p
            },
            PhaseModel::Idle => p,
        },
        LineKind::PhaseEndMarker => PhaseModel::Idle,
        LineKind::Other => p,
    }
}

/// The skip flag after processing `line`: recomputed from the exclusion set
/// when the line opens a table, kept otherwise.
pub open spec fn next_skip(skip: bool, excluded: Set<Seq<char>>, line: Seq<char>) -> bool {
    if opens_table(line) {
        excluded.contains(table_name_of(line)->0)
    } else {
        skip
    }
}

/// Whether `line` is forwarded under skip flag `skip`: every line is, except
/// a row insertion while skipping.
pub open spec fn forwards(skip: bool, line: Seq<char>) -> bool {
    !(skip && kind_of(line) == LineKind::RowInsertionStart)
}

/// The names of `v`, as a set.
pub open spec fn name_set(v: Seq<String>) -> Set<Seq<char>> {
    v.map_values(|s: String| s@).to_set()
}

impl Phase {
    /// The timing record of closing this phase at `now`, if it is active.
    pub fn closing_record(&self, now: u64) -> (r: Option<Observation>)
        ensures
            r is Some <==> self@ is Active,
            r is Some ==> is_closing_record(r->0, self@, now),
    {
        match self {
            Phase::Idle => None,
            Phase::DefiningTable { name, started_at } => Some(
                Observation {
                    kind: PhaseKind::DefiningTable,
                    table_name: name.clone(),
                    duration_nanos: elapsed_nanos(*started_at, now),
                },
            ),
            Phase::InsertingRows { name, started_at } => Some(
                Observation {
                    kind: PhaseKind::InsertingRows,
                    table_name: name.clone(),
                    duration_nanos: elapsed_nanos(*started_at, now),
                },
            ),
        }
    }
}

/// Time from `start` to `now`; zero if the clock went backwards.
pub fn elapsed_nanos(start: u64, now: u64) -> (r: u64)
    ensures
        r == elapsed(start, now),
{
    if now >= start {
        now - start
    } else {
        0
    }
}

/// Whether `name` is one of `names`.
pub fn contains_name(names: &Vec<String>, name: &String) -> (r: bool)
    ensures
        r == name_set(names@).contains(name@),
{
    let mut i: usize = 0;
    while i < names.len()
        invariant
            i <= names@.len(),
            forall|j: int| 0 <= j < i ==> names@[j]@ != name@,
        decreases names@.len() - i,
    {
        if names[i] == *name {
            assert(names@.map_values(|s: String| s@)[i as int] == name@);
            return true;
        }
        i = i + 1;
    }
    proof {
        if name_set(names@).contains(name@) {
            let k = names@.map_values(|s: String| s@).index_of(name@);
            assert(names@[k]@ == name@);
        }
    }
    false
}

/// The state of one pass over a dump: the current phase, the skip flag, and
/// the fixed configuration of the run.
#[derive(Debug)]
pub struct Tracker {
    phase: Phase,
    skip: bool,
    excluded: Vec<String>,
    log: bool,
}

impl Tracker {
    /// The current phase.
    pub closed spec fn phase_model(&self) -> PhaseModel {
        self.phase@
    }

    /// Whether row insertions are currently dropped.
    pub closed spec fn skip_flag(&self) -> bool {
        self.skip
    }

    /// The tables whose row insertions are dropped.
    pub closed spec fn excluded_set(&self) -> Set<Seq<char>> {
        name_set(self.excluded@)
    }

    /// Whether timing records are produced.
    pub closed spec fn logging(&self) -> bool {
        self.log
    }

    /// A tracker at the start of a dump: idle, not skipping.
    pub fn new(excluded: Vec<String>, log: bool) -> (r: Tracker)
        ensures
            r.phase_model() == PhaseModel::Idle,
            !r.skip_flag(),
            r.excluded_set() == name_set(excluded@),
            r.logging() == log,
    {
        Tracker { phase: Phase::Idle, skip: false, excluded, log }
    }

    /// The current phase.
    pub fn phase(&self) -> (r: &Phase)
        ensures
            r@ == self.phase_model(),
    {
        &self.phase
    }

    /// Whether row insertions are currently dropped.
    pub fn skipping(&self) -> (r: bool)
        ensures
            r == self.skip_flag(),
    {
        self.skip
    }

    /// Processes one line read at clock reading `now`: closes the current
    /// phase where the line ends it, moves to the next phase, and decides
    /// whether the line is forwarded.
    pub fn step(&mut self, line: &str, now: u64) -> (r: StepOutcome)
        ensures
            final(self).phase_model() == next_phase(
                old(self).phase_model(),
                old(self).skip_flag(),
                line@,
                now,
            ),
            final(self).skip_flag() == next_skip(
                old(self).skip_flag(),
                old(self).excluded_set(),
                line@,
            ),
            final(self).excluded_set() == old(self).excluded_set(),
            final(self).logging() == old(self).logging(),
            r.kind == kind_of(line@),
            r.forward == forwards(old(self).skip_flag(), line@),
            r.opened_table == opens_table(line@),
            r.observation is Some <==> old(self).logging() && closes_phase(
                old(self).phase_model(),
                line@,
            ),
            r.observation is Some ==> is_closing_record(
                r.observation->0,
                old(self).phase_model(),
                now,
            ),
    {
        let kind = classify_line(line);
        let forward = !(self.skip && kind == LineKind::RowInsertionStart);
        match kind {
            LineKind::TableDefinitionStart => match extract_table_name(line) {
                Some(name) => {
                    let observation = if self.log {
                        self.phase.closing_record(now)
                    } else {
                        None
                    };
                    self.skip = contains_name(&self.excluded, &name);
                    self.phase = Phase::DefiningTable { name, started_at: now };
                    StepOutcome { kind, forward, observation, opened_table: true }
                },
                None => StepOutcome { kind, forward, observation: None, opened_table: false },
            },
            LineKind::RowInsertionStart => {
                let mut observation = None;
                let mut next = None;
                if let Phase::DefiningTable { name, started_at } = &self.phase {
                    if self.log {
                        observation = self.phase.closing_record(now);
                    }
                    if !self.skip {
                        next = Some(name.clone());
                    }
                }
                if let Some(name) = next {
                    self.phase = Phase::InsertingRows { name, started_at: now };
                }
                StepOutcome { kind, forward, observation, opened_table: false }
            },
            LineKind::PhaseEndMarker => {
                let observation = if self.log {
                    match &self.phase {
                        Phase::InsertingRows { .. } => self.phase.closing_record(now),
                        _ => None,
                    }
                } else {
                    None
                };
                self.phase = Phase::Idle;
                StepOutcome { kind, forward, observation, opened_table: false }
            },
            LineKind::Other => StepOutcome { kind, forward, observation: None, opened_table: false },
        }
    }

    /// Closes the dump at clock reading `now`: the timing record of the phase
    /// still open, when logging.
    pub fn finish(&self, now: u64) -> (r: Option<Observation>)
        ensures
            r is Some <==> self.logging() && self.phase_model() is Active,
            r is Some ==> is_closing_record(r->0, self.phase_model(), now),
    {
        if self.log {
            self.phase.closing_record(now)
        } else {
            None
        }
    }
}

} // verus!
