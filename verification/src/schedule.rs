//! Schedule evaluation.
//!
//! A schedule is an ordered list of rules, each a (start, end, playlist)
//! triple of two cron expressions and a playlist key, together with a
//! fallback playlist.  At any time exactly one playlist is active:
//! scanning the rules in order, a rule is active when its most recent
//! start firing is more recent than its most recent end firing; the first
//! active rule wins, and with no active rule the fallback holds.
//!
//! `current_playlist` evaluates that relation at a time; `next_schedule`
//! finds the earliest future moment at which its value changes.

use vstd::prelude::*;

use crate::cronexpr::{CronExpr, MAX_FIRE_TS, cron_valid, fires_at};
use crate::ids::UuidVal;
use crate::strutil;

verus! {

/// One scheduled window: active from each `start` firing until the next
/// `end` firing, showing `playlist`.
#[derive(Debug)]
pub struct ScheduledRule {
    pub start: CronExpr,
    pub end: CronExpr,
    pub playlist: UuidVal,
}

/// A named schedule: ordered rules over a fallback playlist, and the
/// playlist currently resolved as active (written by the scheduler).
#[derive(Debug)]
pub struct Schedule {
    pub name: String,
    /// The playlist last resolved as active; starts as the fallback.
    pub playlist: UuidVal,
    pub fallback: UuidVal,
    pub rules: Vec<ScheduledRule>,
}

/// A scheduled transition: at `time`, `playlist` becomes active.
#[derive(PartialEq, Eq, Structural, Clone, Copy, Debug)]
pub struct Moment {
    /// Scheduled time of change.
    pub time: i64,
    /// The playlist which becomes active at that moment.
    pub playlist: UuidVal,
}

/// One rule as given by the admin surface: playlist key and the two cron
/// expressions as text.
#[derive(Debug, Clone)]
pub struct ScheduledPlaylistInput {
    pub playlist: UuidVal,
    pub start: String,
    pub end: String,
}

/// A schedule as given by the admin surface.
#[derive(Debug)]
pub struct ScheduleInput {
    pub name: String,
    pub scheduled: Option<Vec<ScheduledPlaylistInput>>,
    pub playlist: UuidVal,
}

/// All of the input rules' cron expressions parse.
pub open spec fn cron_valid_inputs(inputs: Seq<ScheduledPlaylistInput>) -> bool {
    forall|i: int|
        0 <= i < inputs.len() ==> cron_valid((#[trigger] inputs[i]).start@) && cron_valid(
            inputs[i].end@,
        )
}

/// `u` is the latest firing of `e` at or before `t`.
pub open spec fn is_prev_fire(e: Seq<char>, t: int, u: int) -> bool {
    fires_at(e, u) && u <= t && (forall|v: int| u < v <= t ==> !fires_at(e, v))
}

/// `e` has no firing at or before `t`.
pub open spec fn no_fire_upto(e: Seq<char>, t: int) -> bool {
    forall|v: int| v <= t ==> !fires_at(e, v)
}

/// Whether the rule is active at `t`: a start firing has happened, and
/// every end firing so far came strictly before that latest start.  A start
/// and end firing at the same moment leave the rule inactive.
pub open spec fn rule_active(r: ScheduledRule, t: int) -> bool {
    exists|us: int|
        (#[trigger] is_prev_fire(r.start@, t, us)) && (forall|ue: int|
            #[trigger] is_prev_fire(r.end@, t, ue) ==> ue < us)
}

/// The playlist a rule list resolves to at `t`: the first active rule's
/// playlist, or the fallback.
pub open spec fn spec_current_playlist(
    rules: Seq<ScheduledRule>,
    fallback: UuidVal,
    t: int,
) -> UuidVal
    decreases rules.len(),
{
    if rules.len() == 0 {
        fallback
    } else if rule_active(rules[0], t) {
        rules[0].playlist
    } else {
        spec_current_playlist(rules.drop_first(), fallback, t)
    }
}

/// The latest firing at or before a time is unique.
pub proof fn lemma_prev_fire_unique(e: Seq<char>, t: int, u1: int, u2: int)
    requires
        is_prev_fire(e, t, u1),
        is_prev_fire(e, t, u2),
    ensures
        u1 == u2,
{
    if u1 < u2 {
        assert(!fires_at(e, u2));
    }
    if u2 < u1 {
        assert(!fires_at(e, u1));
    }
}

/// The playlist the ordered rules resolve to is the fallback or one of the
/// rules' own playlists.
pub proof fn lemma_current_playlist_among(rules: Seq<ScheduledRule>, fallback: UuidVal, t: int)
    ensures
        spec_current_playlist(rules, fallback, t) == fallback || exists|i: int|
            0 <= i < rules.len() && #[trigger] rules[i].playlist == spec_current_playlist(
                rules,
                fallback,
                t,
            ),
    decreases rules.len(),
{
    if rules.len() > 0 && !rule_active(rules[0], t) {
        lemma_current_playlist_among(rules.drop_first(), fallback, t);
        let p = spec_current_playlist(rules, fallback, t);
        if p != fallback {
            let i = choose|i: int|
                0 <= i < rules.drop_first().len() && #[trigger] rules.drop_first()[i].playlist
                    == p;
            assert(rules[i + 1].playlist == p);
        }
    }
}

/// Relate the two wrapper results to the activity of a rule.
proof fn lemma_active_decision(r: ScheduledRule, t: int, ls: Option<i64>, le: Option<i64>)
    requires
        match ls {
            Some(u) => is_prev_fire(r.start@, t, u as int),
            None => no_fire_upto(r.start@, t),
        },
        match le {
            Some(u) => is_prev_fire(r.end@, t, u as int),
            None => no_fire_upto(r.end@, t),
        },
    ensures
        rule_active(r, t) == match (ls, le) {
            (Some(s), Some(e)) => s > e,
            (Some(s), None) => true,
            (None, _) => false,
        },
{
    match (ls, le) {
        (Some(s), Some(e)) => {
            if s > e {
                assert forall|ue: int| #[trigger] is_prev_fire(r.end@, t, ue) implies ue
                    < s as int by {
                    lemma_prev_fire_unique(r.end@, t, ue, e as int);
                }
                assert(rule_active(r, t));
            } else {
                if rule_active(r, t) {
                    let us = choose|us: int|
                        (#[trigger] is_prev_fire(r.start@, t, us)) && (forall|ue: int|
                            #[trigger] is_prev_fire(r.end@, t, ue) ==> ue < us);
                    lemma_prev_fire_unique(r.start@, t, us, s as int);
                    assert(is_prev_fire(r.end@, t, e as int));
                    assert(false);
                }
            }
        },
        (Some(s), None) => {
            assert forall|ue: int| #[trigger] is_prev_fire(r.end@, t, ue) implies ue
                < s as int by {
                assert(!fires_at(r.end@, ue));
            }
            assert(rule_active(r, t));
        },
        (None, _) => {
            if rule_active(r, t) {
                let us = choose|us: int|
                    (#[trigger] is_prev_fire(r.start@, t, us)) && (forall|ue: int|
                        #[trigger] is_prev_fire(r.end@, t, ue) ==> ue < us);
                assert(!fires_at(r.start@, us));
                assert(false);
            }
        },
    }
}

/// No rule has its start and end expressions firing at the same instant
/// after `t`.  A simultaneous firing makes the rule's window ambiguous;
/// the search for the next transition marks such a rule exhausted and may
/// then miss later transitions, so the completeness claims of
/// `next_schedule` hold under this condition.
pub open spec fn no_simultaneous_fire(rules: Seq<ScheduledRule>, t: int) -> bool {
    forall|i: int, v: int|
        0 <= i < rules.len() && t < v ==> !((#[trigger] fires_at(rules[i].start@, v)) && fires_at(
            rules[i].end@,
            v,
        ))
}

/// A firing at which the rule could change the resolved playlist away
/// from `cur`: any end firing and, for a rule whose playlist is not the
/// one currently showing, any start firing.  A start firing of the rule
/// already showing only renews its window.
pub open spec fn rule_candidate(r: ScheduledRule, cur: UuidVal, v: int) -> bool {
    if r.playlist == cur {
        fires_at(r.end@, v)
    } else {
        fires_at(r.start@, v) || fires_at(r.end@, v)
    }
}

/// Removing a firing at `v` leaves the latest-firing-at-or-before
/// relation of `v` equal to that of `v - 1`.
proof fn lemma_prev_fire_shift(e: Seq<char>, v: int)
    requires
        !fires_at(e, v),
    ensures
        forall|u: int| #[trigger] is_prev_fire(e, v, u) == is_prev_fire(e, v - 1, u),
{
    assert forall|u: int| #[trigger] is_prev_fire(e, v, u) == is_prev_fire(e, v - 1, u) by {
        if is_prev_fire(e, v, u) {
            assert(u != v);
            assert(forall|w: int| u < w <= v - 1 ==> !fires_at(e, w));
        }
        if is_prev_fire(e, v - 1, u) {
            assert forall|w: int| u < w <= v implies !fires_at(e, w) by {
                if w <= v - 1 {
                    assert(!fires_at(e, w));
                }
            }
        }
    }
}

/// A rule none of whose expressions fire at `v` is active at `v` exactly
/// when it was active at `v - 1`.
proof fn lemma_active_shift(r: ScheduledRule, v: int)
    requires
        !fires_at(r.start@, v),
        !fires_at(r.end@, v),
    ensures
        rule_active(r, v) == rule_active(r, v - 1),
{
    lemma_prev_fire_shift(r.start@, v);
    lemma_prev_fire_shift(r.end@, v);
    if rule_active(r, v) {
        let us = choose|us: int|
            (#[trigger] is_prev_fire(r.start@, v, us)) && (forall|ue: int|
                #[trigger] is_prev_fire(r.end@, v, ue) ==> ue < us);
        assert(is_prev_fire(r.start@, v - 1, us));
        assert forall|ue: int| #[trigger] is_prev_fire(r.end@, v - 1, ue) implies ue < us by {
            assert(is_prev_fire(r.end@, v, ue));
        }
        assert(rule_active(r, v - 1));
    }
    if rule_active(r, v - 1) {
        let us = choose|us: int|
            (#[trigger] is_prev_fire(r.start@, v - 1, us)) && (forall|ue: int|
                #[trigger] is_prev_fire(r.end@, v - 1, ue) ==> ue < us);
        assert(is_prev_fire(r.start@, v, us));
        assert forall|ue: int| #[trigger] is_prev_fire(r.end@, v, ue) implies ue < us by {
            assert(is_prev_fire(r.end@, v - 1, ue));
        }
        assert(rule_active(r, v));
    }
}

/// A start firing with no end firing at the same instant leaves the rule
/// active at that instant.
proof fn lemma_refresh_active(r: ScheduledRule, v: int)
    requires
        fires_at(r.start@, v),
        !fires_at(r.end@, v),
    ensures
        rule_active(r, v),
{
    assert(is_prev_fire(r.start@, v, v));
    assert forall|ue: int| #[trigger] is_prev_fire(r.end@, v, ue) implies ue < v by {
        assert(fires_at(r.end@, ue));
    }
}

/// With no candidate firing at `v`, the resolved playlist at `v` equals
/// that at `v - 1`.
proof fn lemma_scp_quiet_step(rules: Seq<ScheduledRule>, fb: UuidVal, cur: UuidVal, v: int)
    requires
        forall|i: int| 0 <= i < rules.len() ==> !(#[trigger] rule_candidate(rules[i], cur, v)),
        spec_current_playlist(rules, fb, v - 1) == cur,
    ensures
        spec_current_playlist(rules, fb, v) == cur,
    decreases rules.len(),
{
    if rules.len() > 0 {
        let r0 = rules[0];
        assert(!rule_candidate(r0, cur, v));
        if r0.playlist == cur && fires_at(r0.start@, v) {
            lemma_refresh_active(r0, v);
        } else {
            lemma_active_shift(r0, v);
            if !rule_active(r0, v - 1) {
                assert(forall|i: int|
                    0 <= i < rules.drop_first().len() ==> (#[trigger] rules.drop_first()[i])
                        == rules[i + 1]);
                lemma_scp_quiet_step(rules.drop_first(), fb, cur, v);
            }
        }
    }
}

/// If every candidate firing in `(t, v]` left the resolved playlist
/// unchanged, then the playlist is unchanged throughout `[t, v]`.
pub proof fn lemma_unchanged_upto(rules: Seq<ScheduledRule>, fb: UuidVal, t: int, v: int)
    requires
        t <= v,
        forall|i: int, w: int|
            0 <= i < rules.len() && t < w <= v && #[trigger] rule_candidate(
                rules[i],
                spec_current_playlist(rules, fb, t),
                w,
            ) ==> spec_current_playlist(rules, fb, w) == spec_current_playlist(rules, fb, t),
    ensures
        forall|w: int|
            t <= w <= v ==> spec_current_playlist(rules, fb, w) == spec_current_playlist(
                rules,
                fb,
                t,
            ),
    decreases v - t,
{
    let cur = spec_current_playlist(rules, fb, t);
    if v > t {
        lemma_unchanged_upto(rules, fb, t, v - 1);
        if exists|i: int| 0 <= i < rules.len() && #[trigger] rule_candidate(rules[i], cur, v) {
            let i = choose|i: int|
                0 <= i < rules.len() && #[trigger] rule_candidate(rules[i], cur, v);
            assert(spec_current_playlist(rules, fb, v) == cur);
        } else {
            assert(spec_current_playlist(rules, fb, v - 1) == cur);
            lemma_scp_quiet_step(rules, fb, cur, v);
        }
    }
}

/// What one rule's scan concluded.
enum RuleScan {
    /// A moment at which the resolved playlist differs from the current
    /// one, earlier than any bound given.
    Found(Moment),
    /// The rule's firings are exhausted without a change.
    NoMore,
    /// The rule's next firings lie at or past the given bound.
    Pruned,
    /// The rule fires start and end at the same instant.
    Clash,
}

impl Schedule {
    /// The playlist the schedule resolves to at `t`.
    pub open spec fn active_at(&self, t: int) -> UuidVal {
        spec_current_playlist(self.rules@, self.fallback, t)
    }

    /// Build a schedule from admin input.  Succeeds exactly when every
    /// rule's two cron expressions parse; the active playlist starts as
    /// the fallback.
    pub fn new(name: String, schedules_input: Vec<ScheduledPlaylistInput>, playlist: UuidVal) -> (r:
        Result<Schedule, String>)
        ensures
            r matches Ok(s) ==> {
                &&& s.name == name
                &&& s.playlist == playlist
                &&& s.fallback == playlist
                &&& s.rules@.len() == schedules_input@.len()
                &&& forall|i: int|
                    0 <= i < schedules_input@.len() ==> (#[trigger] s.rules@[i]).start@
                        == schedules_input@[i].start@ && s.rules@[i].end@
                        == schedules_input@[i].end@ && s.rules@[i].playlist
                        == schedules_input@[i].playlist
            },
            r is Ok <==> cron_valid_inputs(schedules_input@),
    {
        let mut rules: Vec<ScheduledRule> = Vec::new();
        let mut idx: usize = 0;
        while idx < schedules_input.len()
            invariant
                idx <= schedules_input@.len(),
                rules@.len() == idx,
                forall|i: int|
                    0 <= i < idx ==> (#[trigger] rules@[i]).start@ == schedules_input@[i].start@
                        && rules@[i].end@ == schedules_input@[i].end@ && rules@[i].playlist
                        == schedules_input@[i].playlist,
                forall|i: int|
                    0 <= i < idx ==> cron_valid((#[trigger] schedules_input@[i]).start@)
                        && cron_valid(schedules_input@[i].end@),
            decreases schedules_input@.len() - idx,
        {
            let s = &schedules_input[idx];
            let start = match Self::str_to_cron(s.start.as_str()) {
                Ok(c) => c,
                Err(e) => {
                    return Err(e);
                },
            };
            let end = match Self::str_to_cron(s.end.as_str()) {
                Ok(c) => c,
                Err(e) => {
                    return Err(e);
                },
            };
            rules.push(ScheduledRule { start, end, playlist: s.playlist });
            idx = idx + 1;
        }
        Ok(Schedule { name, playlist, fallback: playlist, rules })
    }

    /// Parse one cron expression, mapping a parse failure to a message
    /// naming the offending text.
    pub fn str_to_cron(s: &str) -> (r: Result<CronExpr, String>)
        ensures
            r matches Ok(c) ==> c@ == s@ && cron_valid(s@),
            r is Err <==> !cron_valid(s@),
            r matches Err(m) ==> m@ == "invalid cron expression '"@ + s@ + "'"@,
    {
        match CronExpr::parse(s) {
            Ok(c) => Ok(c),
            Err(_) => {
                let mut m = "invalid cron expression '".to_owned();
                strutil::push_str(&mut m, s);
                strutil::push_char(&mut m, '\'');
                proof {
                    assert(m@ =~= "invalid cron expression '"@ + s@ + "'"@) by {
                        reveal_strlit("'");
                    }
                }
                Err(m)
            },
        }
    }

    /// The latest firing of `schedule` at or before `from`, counting
    /// `from` itself when it matches.
    pub fn previous_time(from: i64, schedule: &CronExpr) -> (r: Option<i64>)
        requires
            0 <= from <= MAX_FIRE_TS,
        ensures
            match r {
                Some(u) => 0 <= u <= from && is_prev_fire(schedule@, from as int, u as int),
                None => no_fire_upto(schedule@, from as int),
            },
    {
        if schedule.includes_at(from) {
            Some(from)
        } else {
            schedule.prev_fire_before(from)
        }
    }

    /// Get the active playlist in the schedule at the provided time.
    pub fn current_playlist(&self, time: i64) -> (r: UuidVal)
        requires
            0 <= time <= MAX_FIRE_TS,
        ensures
            r == self.active_at(time as int),
    {
        proof {
            assert(self.rules@.skip(0) =~= self.rules@);
        }
        let mut i: usize = 0;
        while i < self.rules.len()
            invariant
                0 <= time <= MAX_FIRE_TS,
                i <= self.rules@.len(),
                self.active_at(time as int) == spec_current_playlist(
                    self.rules@.skip(i as int),
                    self.fallback,
                    time as int,
                ),
            decreases self.rules@.len() - i,
        {
            let rule = &self.rules[i];
            let last_start = Self::previous_time(time, &rule.start);
            let last_end = Self::previous_time(time, &rule.end);
            let active: bool = match (last_start, last_end) {
                (Some(s), Some(e)) => s > e,
                (Some(_), None) => true,
                (None, _) => false,
            };
            proof {
                lemma_active_decision(self.rules@[i as int], time as int, last_start, last_end);
                assert(self.rules@.skip(i as int)[0] == self.rules@[i as int]);
                assert(self.rules@.skip(i as int).drop_first() =~= self.rules@.skip(i + 1));
            }
            if active {
                proof {
                    assert(spec_current_playlist(
                        self.rules@.skip(i as int),
                        self.fallback,
                        time as int,
                    ) == self.rules@[i as int].playlist);
                }
                return rule.playlist;
            }
            i = i + 1;
        }
        self.fallback
    }

    /// Scan one rule's future firings in order, looking for the first at
    /// which the resolved playlist differs from `cur`.  Stops early at
    /// `bound`, on exhaustion, or on a simultaneous start and end firing.
    fn scan_rule(&self, k: usize, from: i64, cur: UuidVal, bound: Option<i64>) -> (r: RuleScan)
        requires
            0 <= from <= MAX_FIRE_TS,
            k < self.rules@.len(),
            cur == self.active_at(from as int),
            bound matches Some(b) ==> from < b <= MAX_FIRE_TS,
        ensures
            match r {
                RuleScan::Found(m) => from < m.time <= MAX_FIRE_TS && (bound matches Some(b)
                    ==> m.time < b) && m.playlist == self.active_at(m.time as int) && m.playlist
                    != cur && (forall|w: int|
                    from < w < m.time && #[trigger] rule_candidate(self.rules@[k as int], cur, w)
                        ==> self.active_at(w) == cur),
                RuleScan::NoMore => forall|w: int|
                    from < w && #[trigger] rule_candidate(self.rules@[k as int], cur, w)
                        ==> self.active_at(w) == cur,
                RuleScan::Pruned => bound matches Some(b) && (forall|w: int|
                    from < w < b && #[trigger] rule_candidate(self.rules@[k as int], cur, w)
                        ==> self.active_at(w) == cur),
                RuleScan::Clash => !no_simultaneous_fire(self.rules@, from as int),
            },
    {
        let ghost rl = self.rules@[k as int];
        let rule = &self.rules[k];
        let end_only: bool = rule.playlist == cur;
        let mut ns: Option<i64> = if end_only {
            None
        } else {
            rule.start.next_fire_after(from)
        };
        let mut ne: Option<i64> = rule.end.next_fire_after(from);
        let mut done: i64 = from;
        loop
            invariant
                0 <= from <= MAX_FIRE_TS,
                from <= done <= MAX_FIRE_TS,
                k < self.rules@.len(),
                rl == self.rules@[k as int],
                rule.playlist == rl.playlist,
                rule.start@ == rl.start@,
                rule.end@ == rl.end@,
                cur == self.active_at(from as int),
                bound matches Some(b) ==> from < b <= MAX_FIRE_TS,
                end_only == (rl.playlist == cur),
                !end_only ==> match ns {
                    Some(u) => done < u <= MAX_FIRE_TS && fires_at(rl.start@, u as int) && (
                    forall|v: int| done < v < u ==> !fires_at(rl.start@, v)),
                    None => forall|v: int| done < v ==> !fires_at(rl.start@, v),
                },
                match ne {
                    Some(u) => done < u <= MAX_FIRE_TS && fires_at(rl.end@, u as int) && (
                    forall|v: int| done < v < u ==> !fires_at(rl.end@, v)),
                    None => forall|v: int| done < v ==> !fires_at(rl.end@, v),
                },
                forall|w: int|
                    from < w <= done && #[trigger] rule_candidate(rl, cur, w) ==> self.active_at(
                        w,
                    ) == cur,
            decreases MAX_FIRE_TS - done,
        {
            let cnd: i64;
            if end_only {
                match ne {
                    Some(u) => {
                        cnd = u;
                    },
                    None => {
                        proof {
                            assert forall|w: int|
                                from < w && #[trigger] rule_candidate(rl, cur, w) implies self
                                .active_at(w) == cur by {
                                assert(!fires_at(rl.end@, w) || w <= done);
                            }
                        }
                        return RuleScan::NoMore;
                    },
                }
            } else {
                match (ns, ne) {
                    (None, None) => {
                        proof {
                            assert forall|w: int|
                                from < w && #[trigger] rule_candidate(rl, cur, w) implies self
                                .active_at(w) == cur by {
                                if w > done {
                                    assert(!fires_at(rl.start@, w));
                                    assert(!fires_at(rl.end@, w));
                                }
                            }
                        }
                        return RuleScan::NoMore;
                    },
                    (Some(s), None) => {
                        cnd = s;
                    },
                    (None, Some(e)) => {
                        cnd = e;
                    },
                    (Some(s), Some(e)) => {
                        if s == e {
                            proof {
                                assert(fires_at(rl.start@, s as int) && fires_at(
                                    rl.end@,
                                    s as int,
                                ));
                                assert(!no_simultaneous_fire(self.rules@, from as int));
                            }
                            return RuleScan::Clash;
                        }
                        cnd = if s < e {
                            s
                        } else {
                            e
                        };
                    },
                }
            }
            proof {
                assert forall|w: int| done < w < cnd implies !(#[trigger] rule_candidate(
                    rl,
                    cur,
                    w,
                )) by {
                    assert(!fires_at(rl.end@, w));
                    if !end_only {
                        assert(!fires_at(rl.start@, w));
                    }
                }
            }
            if let Some(b) = bound {
                if cnd >= b {
                    proof {
                        assert forall|w: int|
                            from < w < b && #[trigger] rule_candidate(rl, cur, w) implies self
                            .active_at(w) == cur by {
                            assert(w <= done || done < w < cnd);
                        }
                    }
                    return RuleScan::Pruned;
                }
            }
            let p = self.current_playlist(cnd);
            if p != cur {
                proof {
                    assert forall|w: int|
                        from < w < cnd && #[trigger] rule_candidate(rl, cur, w) implies self
                        .active_at(w) == cur by {
                        assert(w <= done || done < w < cnd);
                    }
                }
                return RuleScan::Found(Moment { time: cnd, playlist: p });
            }
            // The firing at `cnd` is shadowed: the playlist there is still
            // `cur`.  Advance the iterator that yielded it.
            if end_only {
                ne = rule.end.next_fire_after(cnd);
            } else {
                match (ns, ne) {
                    (Some(s), _) if s == cnd => {
                        ns = rule.start.next_fire_after(cnd);
                    },
                    _ => {
                        ne = rule.end.next_fire_after(cnd);
                    },
                }
            }
            done = cnd;
        }
    }

    /// The earliest future moment at which the resolved playlist changes,
    /// if the rules' firings reach one.
    ///
    /// Does not return scheduled moments at the exact time passed as
    /// argument.  The moment returned carries the playlist resolved at its
    /// time, which differs from the one resolved at `from`; with no rule
    /// firing start and end at one instant, the resolved playlist is
    /// unchanged at every time strictly between, and a `None` means it
    /// never changes again.
    pub fn next_schedule(&self, from: i64) -> (r: Option<Moment>)
        requires
            0 <= from <= MAX_FIRE_TS,
        ensures
            match r {
                Some(m) => from < m.time <= MAX_FIRE_TS && m.playlist == self.active_at(
                    m.time as int,
                ) && m.playlist != self.active_at(from as int) && (no_simultaneous_fire(
                    self.rules@,
                    from as int,
                ) ==> forall|v: int|
                    from < v < m.time ==> self.active_at(v) == self.active_at(from as int)),
                None => no_simultaneous_fire(self.rules@, from as int) ==> forall|v: int|
                    from < v ==> self.active_at(v) == self.active_at(from as int),
            },
    {
        let cur = self.current_playlist(from);
        let mut best: Option<Moment> = None;
        let mut k: usize = 0;
        while k < self.rules.len()
            invariant
                0 <= from <= MAX_FIRE_TS,
                k <= self.rules@.len(),
                cur == self.active_at(from as int),
                match best {
                    Some(m) => from < m.time <= MAX_FIRE_TS && m.playlist == self.active_at(
                        m.time as int,
                    ) && m.playlist != cur && (no_simultaneous_fire(self.rules@, from as int)
                        ==> forall|i: int, w: int|
                        0 <= i < k && from < w < m.time && #[trigger] rule_candidate(
                            self.rules@[i],
                            cur,
                            w,
                        ) ==> self.active_at(w) == cur),
                    None => no_simultaneous_fire(self.rules@, from as int) ==> forall|
                        i: int,
                        w: int,
                    |
                        0 <= i < k && from < w && #[trigger] rule_candidate(
                            self.rules@[i],
                            cur,
                            w,
                        ) ==> self.active_at(w) == cur,
                },
            decreases self.rules@.len() - k,
        {
            let bound: Option<i64> = match best {
                Some(m) => Some(m.time),
                None => None,
            };
            let scan = self.scan_rule(k, from, cur, bound);
            proof {
                let ghost wf = no_simultaneous_fire(self.rules@, from as int);
            }
            match scan {
                RuleScan::Found(m) => {
                    best = Some(m);
                },
                RuleScan::NoMore => {},
                RuleScan::Pruned => {},
                RuleScan::Clash => {},
            }
            k = k + 1;
        }
        proof {
            if no_simultaneous_fire(self.rules@, from as int) {
                match best {
                    Some(m) => {
                        lemma_unchanged_upto(
                            self.rules@,
                            self.fallback,
                            from as int,
                            m.time - 1,
                        );
                        assert forall|v: int| from < v < m.time implies self.active_at(v)
                            == cur by {
                            assert(from <= v <= m.time - 1);
                        }
                    },
                    None => {
                        assert forall|v: int| from < v implies self.active_at(v) == cur by {
                            lemma_unchanged_upto(self.rules@, self.fallback, from as int, v);
                        }
                    },
                }
            }
        }
        best
    }

    /// True when the schedule has any scheduled rules.
    pub fn has_scheduled_playlists(&self) -> (r: bool)
        ensures
            r == (self.rules@.len() > 0),
    {
        self.rules.len() > 0
    }

    /// The fallback playlist.
    fn get_fallback(&self) -> (r: UuidVal)
        ensures
            r == self.fallback,
    {
        self.fallback
    }

    /// The keys of all playlists the schedule mentions: each rule's, in
    /// order, then the fallback.
    pub fn all_playlists(&self) -> (r: Vec<UuidVal>)
        ensures
            r@.len() == self.rules@.len() + 1,
            forall|i: int| 0 <= i < self.rules@.len() ==> r@[i] == self.rules@[i].playlist,
            r@[self.rules@.len() as int] == self.fallback,
    {
        let mut r: Vec<UuidVal> = Vec::new();
        let mut i: usize = 0;
        while i < self.rules.len()
            invariant
                i <= self.rules@.len(),
                r@.len() == i,
                forall|j: int| 0 <= j < i ==> r@[j] == self.rules@[j].playlist,
            decreases self.rules@.len() - i,
        {
            r.push(self.rules[i].playlist);
            i = i + 1;
        }
        r.push(self.get_fallback());
        r
    }

    /// Rebuild the admin-surface form of the schedule: the rule list with
    /// each cron expression's source text, `None` standing for no rules,
    /// and the fallback playlist.
    pub fn to_input(&self) -> (r: ScheduleInput)
        ensures
            r.name@ == self.name@,
            r.playlist == self.fallback,
            self.rules@.len() == 0 ==> r.scheduled is None,
            self.rules@.len() > 0 ==> (r.scheduled matches Some(v) && v@.len()
                == self.rules@.len() && (forall|i: int|
                0 <= i < self.rules@.len() ==> (#[trigger] v@[i]).start@ == self.rules@[i].start@
                    && v@[i].end@ == self.rules@[i].end@ && v@[i].playlist
                    == self.rules@[i].playlist)),
    {
        let mut v: Vec<ScheduledPlaylistInput> = Vec::new();
        let mut i: usize = 0;
        while i < self.rules.len()
            invariant
                i <= self.rules@.len(),
                v@.len() == i,
                forall|j: int|
                    0 <= j < i ==> (#[trigger] v@[j]).start@ == self.rules@[j].start@
                        && v@[j].end@ == self.rules@[j].end@ && v@[j].playlist
                        == self.rules@[j].playlist,
            decreases self.rules@.len() - i,
        {
            let rule = &self.rules[i];
            v.push(
                ScheduledPlaylistInput {
                    playlist: rule.playlist,
                    start: rule.start.source_text(),
                    end: rule.end.source_text(),
                },
            );
            i = i + 1;
        }
        let scheduled = if v.len() > 0 {
            Some(v)
        } else {
            None
        };
        ScheduleInput { name: self.name.clone(), scheduled, playlist: self.get_fallback() }
    }

    /// A copy with the same name, rules, fallback and active playlist.
    pub fn duplicate(&self) -> (r: Schedule)
        ensures
            r.name@ == self.name@,
            r.playlist == self.playlist,
            r.fallback == self.fallback,
            r.rules@.len() == self.rules@.len(),
            forall|i: int|
                0 <= i < self.rules@.len() ==> (#[trigger] r.rules@[i]).start@
                    == self.rules@[i].start@ && r.rules@[i].end@ == self.rules@[i].end@
                    && r.rules@[i].playlist == self.rules@[i].playlist,
    {
        let mut rules: Vec<ScheduledRule> = Vec::new();
        let mut i: usize = 0;
        while i < self.rules.len()
            invariant
                i <= self.rules@.len(),
                rules@.len() == i,
                forall|j: int|
                    0 <= j < i ==> (#[trigger] rules@[j]).start@ == self.rules@[j].start@
                        && rules@[j].end@ == self.rules@[j].end@ && rules@[j].playlist
                        == self.rules@[j].playlist,
            decreases self.rules@.len() - i,
        {
            let rule = &self.rules[i];
            rules.push(
                ScheduledRule {
                    start: rule.start.duplicate(),
                    end: rule.end.duplicate(),
                    playlist: rule.playlist,
                },
            );
            i = i + 1;
        }
        Schedule {
            name: self.name.clone(),
            playlist: self.playlist,
            fallback: self.fallback,
            rules,
        }
    }
}

} // verus!
