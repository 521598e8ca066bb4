//! Cron expressions.
//!
//! A schedule rule's start and end are seven-field cron expressions
//! (second, minute, hour, day of month, month, day of week, year).  The
//! `cron` crate parses them and computes firing times; this module wraps
//! those calls behind trusted declarations, naming the crate's matching
//! relation `fires_at` so that the evaluator's contracts can speak of it.
//!
//! Times are UTC timestamps in whole seconds; the cron grammar only admits
//! years 1970 through 2100, so every firing lies between `0` and
//! `MAX_FIRE_TS`.

use vstd::prelude::*;

use std::str::FromStr;

use cron::Schedule as CronSchedule;

verus! {

/// Timestamp of 2100-12-31T23:59:59Z, the last instant the cron grammar
/// (years 1970 to 2100) can name.
pub const MAX_FIRE_TS: i64 = 4133980799;

/// Whether the cron expression's fields match the UTC date and time of
/// second `t`.  Names the matching relation of the `cron` crate
/// (`Schedule::includes`, and the search target of its firing iterators):
/// a pure function of the expression text and the timestamp.
pub uninterp spec fn fires_at(expr: Seq<char>, t: int) -> bool;

/// Whether the cron grammar accepts the expression.  Names the success of
/// `cron::Schedule::from_str` on the text.
pub uninterp spec fn cron_valid(expr: Seq<char>) -> bool;

#[verifier::external_type_specification]
#[verifier::external_body]
pub struct ExCronSchedule(CronSchedule);

#[verifier::external_type_specification]
#[verifier::external_body]
pub struct ExCronError(cron::error::Error);

/// A parsed cron expression together with its source text.
///
/// The fields are private: only [`CronExpr::parse`] builds a value, so the
/// parsed schedule always belongs to the stored source.
#[derive(Debug)]
pub struct CronExpr {
    source: String,
    sched: CronSchedule,
}

impl View for CronExpr {
    type V = Seq<char>;

    closed spec fn view(&self) -> Seq<char> {
        self.source@
    }
}

impl CronExpr {
    /// Relies on cron::Schedule::from_str: parses the expression, keeping
    /// its source text; fails exactly on text the cron grammar rejects.
    #[verifier::external_body]
    pub fn parse(s: &str) -> (r: Result<CronExpr, cron::error::Error>)
        ensures
            r matches Ok(c) ==> c@ == s@ && cron_valid(s@),
            r is Err ==> !cron_valid(s@),
    {
        match CronSchedule::from_str(s) {
            Ok(sched) => Ok(CronExpr { source: s.to_string(), sched }),
            Err(e) => Err(e),
        }
    }

    /// The expression's source text.
    pub fn source_text(&self) -> (r: String)
        ensures
            r@ == self@,
    {
        self.source.clone()
    }

    /// Relies on the derived Clone of cron::Schedule: an equal schedule
    /// for the same source text.
    #[verifier::external_body]
    pub fn duplicate(&self) -> (r: CronExpr)
        ensures
            r@ == self@,
    {
        CronExpr { source: self.source.clone(), sched: self.sched.clone() }
    }

    /// Relies on cron::Schedule::includes: whether the expression matches
    /// the timestamp's UTC date and time.
    #[verifier::external_body]
    pub fn includes_at(&self, t: i64) -> (r: bool)
        requires
            0 <= t <= MAX_FIRE_TS,
        ensures
            r == fires_at(self@, t as int),
    {
        match chrono::DateTime::from_timestamp(t, 0) {
            Some(dt) => self.sched.includes(dt),
            None => false,
        }
    }

    /// Relies on cron::Schedule::after and ScheduleIterator::next
    /// (Schedule::next_after): the earliest matching time strictly after
    /// the given one, if any matching time is left.
    #[verifier::external_body]
    pub fn next_fire_after(&self, t: i64) -> (r: Option<i64>)
        requires
            0 <= t <= MAX_FIRE_TS,
        ensures
            match r {
                Some(u) => t < u <= MAX_FIRE_TS && fires_at(self@, u as int) && (forall|v: int|
                    t < v < u ==> !fires_at(self@, v)),
                None => forall|v: int| t < v ==> !fires_at(self@, v),
            },
    {
        match chrono::DateTime::from_timestamp(t, 0) {
            Some(dt) => self.sched.after(&dt).next().map(|d| d.timestamp()),
            None => None,
        }
    }

    /// Relies on cron::Schedule::after and ScheduleIterator::next_back
    /// (Schedule::prev_from): the latest matching time strictly before the
    /// given one, if any matching time came before.
    #[verifier::external_body]
    pub fn prev_fire_before(&self, t: i64) -> (r: Option<i64>)
        requires
            0 <= t <= MAX_FIRE_TS,
        ensures
            match r {
                Some(u) => 0 <= u < t && fires_at(self@, u as int) && (forall|v: int|
                    u < v < t ==> !fires_at(self@, v)),
                None => forall|v: int| v < t ==> !fires_at(self@, v),
            },
    {
        match chrono::DateTime::from_timestamp(t, 0) {
            Some(dt) => self.sched.after(&dt).next_back().map(|d| d.timestamp()),
            None => None,
        }
    }
}

} // verus!
