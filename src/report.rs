//! Text of the timing records written to the diagnostic stream.
use vstd::prelude::*;
use vstd::string::StringExecFns;
use crate::tracker::{Observation, PhaseKind};

verus! {

broadcast use vstd::string::group_string_axioms;

/// The decimal digits, indexed by value.
pub const DIGITS: &'static str = "0123456789";

/// Nanoseconds in a millisecond.
pub const NANOS_PER_MILLI: u64 = 1_000_000;

/// The layout of a timing record.
#[derive(Clone, Copy, Debug, PartialEq, Eq, Structural)]
pub enum LogFormat {
    /// `<CREATE TABLE|INSERT INTO> <table> took <ms> ms`
    Default,
    /// `<CREATE|INSERT>,<table>,<ms>`
    Csv,
}

/// The character of the digit `d`.
pub open spec fn digit(d: nat) -> Seq<char> {
    DIGITS@.subrange(d as int, d as int + 1)
}

/// The decimal representation of `n`, without leading zeros.
pub open spec fn decimal(n: nat) -> Seq<char>
    decreases n,
{
    if n < 10 {
        digit(n)
    } else {
        decimal(n / 10) + digit(n % 10)
    }
}

/// The statement a phase kind is named after in the default layout.
pub open spec fn statement_of(kind: PhaseKind) -> Seq<char> {
    match kind {
        PhaseKind::DefiningTable => "CREATE TABLE"@,
        PhaseKind::InsertingRows => "INSERT INTO"@,
    }
}

/// The short tag of a phase kind in the comma-separated layout.
pub open spec fn tag_of(kind: PhaseKind) -> Seq<char> {
    match kind {
        PhaseKind::DefiningTable => "CREATE"@,
        PhaseKind::InsertingRows => "INSERT"@,
    }
}

/// The text of the record for a phase of kind `kind` on table `name` that
/// lasted `nanos` nanoseconds; the duration is shown in whole milliseconds.
pub open spec fn record_text(format: LogFormat, kind: PhaseKind, name: Seq<char>, nanos: u64) -> Seq<
    char,
> {
    let ms = decimal((nanos / NANOS_PER_MILLI) as nat);
    match format {
        LogFormat::Default => statement_of(kind) + " "@ + name + " took "@ + ms + " ms"@,
        LogFormat::Csv => tag_of(kind) + ","@ + name + ","@ + ms,
    }
}

/// Appends the decimal representation of `n` to `out`.
pub fn push_decimal(out: &mut String, n: u64)
    ensures
        final(out)@ == old(out)@ + decimal(n as nat),
    decreases n,
{
    proof {
        reveal_strlit("0123456789");
    }
    if n >= 10 {
        push_decimal(out, n / 10);
    }
    let d = (n % 10) as usize;
    out.append(DIGITS.substring_char(d, d + 1));
    assert(final(out)@ =~= old(out)@ + decimal(n as nat));
}

/// The statement a phase kind is named after: `CREATE TABLE` or `INSERT INTO`.
pub fn statement_label(kind: PhaseKind) -> (r: &'static str)
    ensures
        r@ == statement_of(kind),
{
    match kind {
        PhaseKind::DefiningTable => "CREATE TABLE",
        PhaseKind::InsertingRows => "INSERT INTO",
    }
}

/// The text of the record for a phase of kind `kind` on table `table_name`
/// that lasted `duration_nanos` nanoseconds.
pub fn format_record(format: LogFormat, kind: PhaseKind, table_name: &str, duration_nanos: u64) -> (r:
    String)
    ensures
        r@ == record_text(format, kind, table_name@, duration_nanos),
{
    let ms = duration_nanos / NANOS_PER_MILLI;
    let mut out = String::new();
    match format {
        LogFormat::Default => {
            out.append(statement_label(kind));
            out.append(" ");
            out.append(table_name);
            out.append(" took ");
            push_decimal(&mut out, ms);
            out.append(" ms");
        },
        LogFormat::Csv => {
            match kind {
                PhaseKind::DefiningTable => out.append("CREATE"),
                PhaseKind::InsertingRows => out.append("INSERT"),
            }
            out.append(",");
            out.append(table_name);
            out.append(",");
            push_decimal(&mut out, ms);
        },
    }
    assert(out@ =~= record_text(format, kind, table_name@, duration_nanos));
    out
}

/// The text of the record for `o`.
pub fn observation_record(format: LogFormat, o: &Observation) -> (r: String)
    ensures
        r@ == record_text(format, o.kind, o.table_name@, o.duration_nanos),
{
    format_record(format, o.kind, o.table_name.as_str(), o.duration_nanos)
}

} // verus!
