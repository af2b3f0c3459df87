//! The cron evaluator and the clock, as the scheduler sees them.
//!
//! Parsing and evaluating cron expressions is the work of the `croner` crate,
//! and the clock and the local time zone are `chrono`'s. The functions that
//! call them are taken on trust: their contracts restate what those crates
//! document, and are not proved.

use crate::instant::Instant;
use std::str::FromStr;
use vstd::prelude::*;

verus! {

/// `croner::Cron`, a compiled cron expression. Opaque to the verifier.
#[verifier::external_type_specification]
#[verifier::external_body]
pub struct ExCron(croner::Cron);

/// `croner::errors::CronError`, the reason a cron expression was rejected.
/// Opaque to the verifier.
#[verifier::external_type_specification]
#[verifier::external_body]
pub struct ExCronError(croner::errors::CronError);

/// Whether `croner` accepts `pattern` as a cron expression, that is whether
/// `Cron::from_str` returns `Ok` for it.
pub uninterp spec fn schedule_is_valid(pattern: Seq<char>) -> bool;

/// The text of a compiled cron expression as `croner` normalised it, that is
/// what `CronPattern`'s `Display` writes for the expression that
/// `Cron::from_str` made of `pattern`. It says nothing of a pattern that does
/// not parse.
pub uninterp spec fn normalized_schedule(pattern: Seq<char>) -> Seq<char>;

/// A cron expression that `croner` has compiled, together with the text it
/// was compiled from. A task holds one to ask when it is due next.
///
/// Its view is that text. Only `parse_schedule` and `duplicate_schedule` make
/// a value of this type, so the compiled expression is always the one that
/// `croner` made of the text.
#[derive(Debug)]
pub struct CompiledSchedule {
    cron: croner::Cron,
    source: String,
}

impl View for CompiledSchedule {
    type V = Seq<char>;

    closed spec fn view(&self) -> Seq<char> {
        self.source@
    }
}

impl CompiledSchedule {
    /// Compiles `pattern`, or says why `croner` rejects it.
    pub(crate) fn compile(pattern: &str) -> (res: Result<Self, croner::errors::CronError>)
        ensures
            res.is_ok() == schedule_is_valid(pattern@),
            res matches Ok(schedule) ==> schedule@ == pattern@,
    {
        parse_schedule(pattern)
    }

    /// The next occurrence strictly after `from`.
    ///
    /// There is none where `from` is no time that the calendar knows. For
    /// any other `from` the evaluator decides: it may find no occurrence.
    pub(crate) fn next_after(&self, from: &Instant) -> (next: Option<Instant>)
        ensures
            next matches Some(t) ==> from.spec_lt(t),
            !from.is_calendar_time() ==> next is None,
    {
        if from.is_in_calendar_range() {
            next_occurrence(self, from)
        } else {
            None
        }
    }

    /// A second handle on the same expression.
    pub(crate) fn duplicate(&self) -> (copy: Self)
        ensures
            copy@ == self@,
    {
        duplicate_schedule(self)
    }

    /// The expression as the evaluator normalised it.
    pub(crate) fn pattern_text(&self) -> (text: String)
        ensures
            text@ == normalized_schedule(self@),
    {
        normalized_pattern(self)
    }
}

/// Calls `Cron::from_str`, which parses with `croner`'s default settings, and
/// keeps the text beside the compiled expression.
///
/// Trusted: whether the call succeeds depends on the text of the pattern
/// alone, and `schedule_is_valid` is the name of that answer. The text that
/// is kept is `pattern`.
#[verifier::external_body]
fn parse_schedule(pattern: &str) -> (res: Result<CompiledSchedule, croner::errors::CronError>)
    ensures
        res.is_ok() == schedule_is_valid(pattern@),
        res matches Ok(schedule) ==> schedule@ == pattern@,
{
    match croner::Cron::from_str(pattern) {
        Ok(cron) => Ok(CompiledSchedule { cron, source: pattern.to_owned() }),
        Err(error) => Err(error),
    }
}

/// Calls `CronError`'s `Display`: the error as a sentence. Nothing is claimed
/// of the text.
#[verifier::external_body]
pub(crate) fn cron_error_text(error: &croner::errors::CronError) -> String {
    error.to_string()
}

/// Calls `Cron::find_next_occurrence` with `inclusive` set to `false`, on
/// `from` read in the machine's local time zone.
///
/// Trusted: `croner` documents that an exclusive search starts from the next
/// second and considers only future occurrences, so an occurrence that it
/// finds lies strictly after `from`. Which occurrence that is depends on the
/// local time zone, and nothing is claimed of it. `None` stands for every
/// failure: `chrono::DateTime::from_timestamp` rejects `from`, which it does
/// for nanoseconds that the calendar does not know, or `croner` found no
/// occurrence.
///
/// `chrono` may panic on a local time at the far ends of its range, so `from`
/// has to be in the calendar range.
#[verifier::external_body]
fn next_occurrence(schedule: &CompiledSchedule, from: &Instant) -> (res: Option<Instant>)
    requires
        from.in_calendar_range(),
    ensures
        res matches Some(t) ==> from.spec_lt(t),
        !from.is_calendar_time() ==> res is None,
{
    let utc = chrono::DateTime::from_timestamp(from.secs, from.nanos)?;
    let start = utc.with_timezone(&chrono::Local);
    let next = schedule.cron.find_next_occurrence(&start, false).ok()?;
    Some(Instant { secs: next.timestamp(), nanos: next.timestamp_subsec_nanos() })
}

/// Calls `chrono::Local::now`. Nothing is claimed of the time it reads.
#[verifier::external_body]
pub(crate) fn current_time() -> Instant {
    let now = chrono::Local::now();
    Instant { secs: now.timestamp(), nanos: now.timestamp_subsec_nanos() }
}

/// Calls `Cron`'s `Clone`, and copies the text beside it.
///
/// Trusted: the copy is compiled from the same text. `Cron` derives `Clone`,
/// so the copy is the same compiled expression.
#[verifier::external_body]
fn duplicate_schedule(schedule: &CompiledSchedule) -> (copy: CompiledSchedule)
    ensures
        copy@ == schedule@,
{
    CompiledSchedule { cron: schedule.cron.clone(), source: schedule.source.clone() }
}

/// Calls `CronPattern`'s `Display` on the compiled pattern: the expression as
/// `croner` normalised it.
///
/// Trusted: the text depends on the pattern alone that the expression was
/// compiled from, and `normalized_schedule` is its name.
#[verifier::external_body]
fn normalized_pattern(schedule: &CompiledSchedule) -> (text: String)
    ensures
        text@ == normalized_schedule(schedule@),
{
    schedule.cron.pattern.to_string()
}

} // verus!
