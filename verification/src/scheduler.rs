//! Scheduler-loop planning.
//!
//! One long-lived task keeps every schedule's active playlist current: at
//! startup it resolves each schedule at the present time, then repeatedly
//! computes the earliest future transition across all schedules, sleeps
//! until it, and writes the tied schedules' new active playlists in one
//! batch.  The decisions are pure functions here; the task around them
//! performs the sleeps, bus receives and catalog writes.

use vstd::prelude::*;

use crate::catalog::{Change, Content};
use crate::cronexpr::MAX_FIRE_TS;
use crate::ids::UuidVal;
use crate::schedule::{Moment, Schedule, no_simultaneous_fire};

verus! {

/// The schedule's firings are unambiguous after `t` (no rule fires start
/// and end at one instant).
pub open spec fn sched_wf(s: Schedule, t: int) -> bool {
    no_simultaneous_fire(s.rules@, t)
}

/// The schedule resolves to the same playlist at every time strictly
/// between `t` and `hi`.
pub open spec fn unchanged_between(s: Schedule, t: int, hi: int) -> bool {
    forall|v: int| t < v < hi ==> s.active_at(v) == s.active_at(t)
}

/// The schedule resolves to the same playlist at every time after `t`.
pub open spec fn unchanged_after(s: Schedule, t: int) -> bool {
    forall|v: int| t < v ==> s.active_at(v) == s.active_at(t)
}

/// The startup batch: each schedule paired with the playlist it resolves
/// to now.
pub fn startup_assignments(schedules: &Vec<(UuidVal, Schedule)>, now: i64) -> (r: Vec<
    (UuidVal, UuidVal),
>)
    requires
        0 <= now <= MAX_FIRE_TS,
    ensures
        r@.len() == schedules@.len(),
        forall|i: int|
            0 <= i < schedules@.len() ==> (#[trigger] r@[i]).0 == schedules@[i].0 && r@[i].1
                == schedules@[i].1.active_at(now as int),
{
    let mut r: Vec<(UuidVal, UuidVal)> = Vec::new();
    let mut i: usize = 0;
    while i < schedules.len()
        invariant
            0 <= now <= MAX_FIRE_TS,
            i <= schedules@.len(),
            r@.len() == i,
            forall|j: int|
                0 <= j < i ==> (#[trigger] r@[j]).0 == schedules@[j].0 && r@[j].1
                    == schedules@[j].1.active_at(now as int),
        decreases schedules@.len() - i,
    {
        let p = schedules[i].1.current_playlist(now);
        r.push((schedules[i].0, p));
        i = i + 1;
    }
    r
}

/// Whether a bus message wakes the idle scheduler: a rules change naming
/// at least one schedule that now has rules.
pub fn wakes_scheduler(change: &Change, content: &Content) -> (r: bool)
    requires
        content.wf(),
    ensures
        r == (change matches Change::ScheduleInput(v) && exists|i: int|
            0 <= i < v@.len() && ((#[trigger] content.spec_schedule(v@[i])) matches Some(s)
                && s.rules@.len() > 0)),
{
    match change {
        Change::ScheduleInput(v) => {
            let mut i: usize = 0;
            while i < v.len()
                invariant
                    content.wf(),
                    (*change) matches Change::ScheduleInput(vv) && vv == *v,
                    i <= v@.len(),
                    forall|j: int|
                        0 <= j < i ==> !((#[trigger] content.spec_schedule(v@[j])) matches Some(s)
                            && s.rules@.len() > 0),
                decreases v@.len() - i,
            {
                match crate::assoc::assoc_find(&content.schedules, v[i]) {
                    Some(si) => {
                        proof {
                            crate::assoc::lemma_assoc_get_first(
                                content.schedules@,
                                v@[i as int],
                                si as int,
                            );
                        }
                        if content.schedules[si].1.has_scheduled_playlists() {
                            proof {
                                assert((content.spec_schedule(v@[i as int])) is Some
                                    && content.spec_schedule(v@[i as int])->0.rules@.len() > 0);
                            }
                            return true;
                        }
                    },
                    None => {
                        proof {
                            crate::assoc::lemma_assoc_get_none(content.schedules@, v@[i as int]);
                        }
                    },
                }
                i = i + 1;
            }
            false
        },
        _ => false,
    }
}

/// Re-resolve the named schedules' active playlists at `now`, in one
/// catalog write, reporting the `Schedule` change that covers them.
/// Schedules not present are skipped.
pub fn resolve_schedules_now(content: &mut Content, uuids: &Vec<UuidVal>, now: i64) -> (c: Change)
    requires
        old(content).wf(),
        0 <= now <= MAX_FIRE_TS,
        forall|i: int, j: int| 0 <= i < j < uuids@.len() ==> uuids@[i] != uuids@[j],
    ensures
        final(content).wf(),
        forall|i: int|
            0 <= i < uuids@.len() ==> (match old(content).spec_schedule(#[trigger] uuids@[i]) {
                Some(s) => final(content).spec_schedule(uuids@[i]) == Some(
                    (Schedule {
                        name: s.name,
                        playlist: s.active_at(now as int),
                        fallback: s.fallback,
                        rules: s.rules,
                    }),
                ),
                None => final(content).spec_schedule(uuids@[i]) is None,
            }),
        forall|w: UuidVal|
            (forall|i: int| 0 <= i < uuids@.len() ==> #[trigger] uuids@[i] != w) ==> final(content).spec_schedule(w) == old(content).spec_schedule(w),
        final(content).displays@ == old(content).displays@,
        final(content).playlists@ == old(content).playlists@,
        c matches Change::Schedule(v) && v@ == uuids@,
{
    let mut idx: usize = 0;
    let mut keys: Vec<UuidVal> = Vec::new();
    while idx < uuids.len()
        invariant
            old(content).wf(),
            content.wf(),
            0 <= now <= MAX_FIRE_TS,
            idx <= uuids@.len(),
            forall|i: int, j: int| 0 <= i < j < uuids@.len() ==> uuids@[i] != uuids@[j],
            keys@.len() == idx,
            forall|i: int| 0 <= i < idx ==> keys@[i] == uuids@[i],
            forall|i: int|
                0 <= i < idx ==> (match old(content).spec_schedule(#[trigger] uuids@[i]) {
                    Some(s) => content.spec_schedule(uuids@[i]) == Some(
                        (Schedule {
                            name: s.name,
                            playlist: s.active_at(now as int),
                            fallback: s.fallback,
                            rules: s.rules,
                        }),
                    ),
                    None => content.spec_schedule(uuids@[i]) is None,
                }),
            forall|w: UuidVal|
                (forall|i: int| 0 <= i < idx ==> #[trigger] uuids@[i] != w) ==> content
                    .spec_schedule(w) == old(content).spec_schedule(w),
            content.displays@ == old(content).displays@,
            content.playlists@ == old(content).playlists@,
        decreases uuids@.len() - idx,
    {
        let u = uuids[idx];
        let ghost prev = *content;
        match crate::assoc::assoc_find(&content.schedules, u) {
            Some(i) => {
                proof {
                    crate::assoc::lemma_assoc_get_first(content.schedules@, u, i as int);
                }
                let p = content.schedules[i].1.current_playlist(now);
                content.schedules[i].1.playlist = p;
                proof {
                    assert forall|w: UuidVal| true implies crate::assoc::spec_assoc_get(
                        content.schedules@,
                        w,
                    ) == if w == u {
                        Some(content.schedules@[i as int].1)
                    } else {
                        crate::assoc::spec_assoc_get(prev.schedules@, w)
                    } by {
                        crate::assoc::lemma_assoc_update(
                            prev.schedules@,
                            i as int,
                            u,
                            content.schedules@[i as int].1,
                            w,
                        );
                    }
                }
            },
            None => {
                proof {
                    crate::assoc::lemma_assoc_get_none(content.schedules@, u);
                }
            },
        }
        keys.push(u);
        idx = idx + 1;
    }
    proof {
        assert(keys@ =~= uuids@);
    }
    Change::Schedule(keys)
}

/// A planned transition: the time to sleep until, and the tied
/// (schedule, new playlist) pairs to write when it is reached.
pub struct Plan {
    pub time: i64,
    pub updates: Vec<(UuidVal, UuidVal)>,
}

/// Every planned pair belongs to a schedule of the snapshot and carries
/// the playlist that schedule resolves to at the planned time, which
/// differs from the one it resolves to at `from`.
pub open spec fn plan_pairs_sound(
    schedules: Seq<(UuidVal, Schedule)>,
    from: int,
    plan: Plan,
) -> bool {
    forall|k: int|
        0 <= k < plan.updates@.len() ==> exists|i: int|
            0 <= i < schedules.len() && (#[trigger] schedules[i]).0 == (
            #[trigger] plan.updates@[k]).0 && schedules[i].1.active_at(plan.time as int)
                == plan.updates@[k].1 && plan.updates@[k].1 != schedules[i].1.active_at(from)
}

/// No unambiguous schedule changes playlist strictly before the planned
/// time.
pub open spec fn plan_minimal(schedules: Seq<(UuidVal, Schedule)>, from: int, plan: Plan) -> bool {
    forall|i: int|
        0 <= i < schedules.len() && sched_wf((#[trigger] schedules[i]).1, from)
            ==> unchanged_between(schedules[i].1, from, plan.time as int)
}

/// Every unambiguous schedule that changes playlist at the planned time
/// has its pair in the plan: ties fire together.
pub open spec fn plan_complete(schedules: Seq<(UuidVal, Schedule)>, from: int, plan: Plan) -> bool {
    forall|i: int|
        0 <= i < schedules.len() && sched_wf((#[trigger] schedules[i]).1, from) && schedules[i].1
            .active_at(plan.time as int) != schedules[i].1.active_at(from) ==> exists|k: int|
            0 <= k < plan.updates@.len() && (#[trigger] plan.updates@[k]).0 == schedules[i].0
                && plan.updates@[k].1 == schedules[i].1.active_at(plan.time as int)
}

/// Every unambiguous schedule keeps its resolved playlist forever after
/// `from`.
pub open spec fn no_more_transitions(schedules: Seq<(UuidVal, Schedule)>, from: int) -> bool {
    forall|i: int|
        0 <= i < schedules.len() && sched_wf((#[trigger] schedules[i]).1, from)
            ==> unchanged_after(schedules[i].1, from)
}

/// What each schedule's own transition search concluded, entry by entry.
spec fn moments_ok(
    moments: Seq<Option<Moment>>,
    schedules: Seq<(UuidVal, Schedule)>,
    from: int,
    upto: int,
) -> bool {
    forall|j: int|
        0 <= j < upto ==> match #[trigger] moments[j] {
            Some(m) => from < m.time <= MAX_FIRE_TS && m.playlist == schedules[j].1.active_at(
                m.time as int,
            ) && m.playlist != schedules[j].1.active_at(from) && (sched_wf(schedules[j].1, from)
                ==> unchanged_between(schedules[j].1, from, m.time as int)),
            None => sched_wf(schedules[j].1, from) ==> unchanged_after(schedules[j].1, from),
        }
}

/// The earliest future transition across all schedules: its time and the
/// set of (schedule, new playlist) pairs tied at that time.  `None` when,
/// for every unambiguous schedule, the resolved playlist never changes
/// again.
#[verifier::rlimit(60)]
pub fn plan_next(schedules: &Vec<(UuidVal, Schedule)>, from: i64) -> (r: Option<Plan>)
    requires
        0 <= from <= MAX_FIRE_TS,
    ensures
        r matches Some(plan) ==> from < plan.time <= MAX_FIRE_TS && plan.updates@.len() > 0
            && plan_pairs_sound(schedules@, from as int, plan) && plan_minimal(
            schedules@,
            from as int,
            plan,
        ) && plan_complete(schedules@, from as int, plan),
        r is None ==> no_more_transitions(schedules@, from as int),
{
    let mut moments: Vec<Option<Moment>> = Vec::new();
    let mut i: usize = 0;
    while i < schedules.len()
        invariant
            0 <= from <= MAX_FIRE_TS,
            i <= schedules@.len(),
            moments@.len() == i,
            moments_ok(moments@, schedules@, from as int, i as int),
        decreases schedules@.len() - i,
    {
        moments.push(schedules[i].1.next_schedule(from));
        i = i + 1;
    }
    let mut t_opt: Option<i64> = None;
    let mut i: usize = 0;
    while i < moments.len()
        invariant
            moments@.len() == schedules@.len(),
            i <= moments@.len(),
            match t_opt {
                Some(t) => (exists|j: int|
                    0 <= j < i && (#[trigger] moments@[j]) is Some && moments@[j]->0.time == t)
                    && (forall|j: int|
                    0 <= j < i && (#[trigger] moments@[j]) is Some ==> moments@[j]->0.time >= t),
                None => forall|j: int| 0 <= j < i ==> (#[trigger] moments@[j]) is None,
            },
        decreases moments@.len() - i,
    {
        if let Some(m) = &moments[i] {
            match t_opt {
                Some(t) => {
                    if m.time < t {
                        t_opt = Some(m.time);
                    }
                },
                None => {
                    t_opt = Some(m.time);
                },
            }
        }
        i = i + 1;
    }
    let t = match t_opt {
        Some(t) => t,
        None => {
            proof {
                assert forall|j: int|
                    0 <= j < schedules@.len() && sched_wf(
                        (#[trigger] schedules@[j]).1,
                        from as int,
                    ) implies unchanged_after(schedules@[j].1, from as int) by {
                    assert(moments@[j] is None);
                }
            }
            return None;
        },
    };
    proof {
        let j0 = choose|j: int|
            0 <= j < moments@.len() && (#[trigger] moments@[j]) is Some && moments@[j]->0.time
                == t;
        assert(from < t <= MAX_FIRE_TS);
    }
    let mut pairs: Vec<(UuidVal, UuidVal)> = Vec::new();
    let mut i: usize = 0;
    while i < moments.len()
        invariant
            0 <= from <= MAX_FIRE_TS,
            from < t <= MAX_FIRE_TS,
            moments@.len() == schedules@.len(),
            i <= moments@.len(),
            moments_ok(moments@, schedules@, from as int, moments@.len() as int),
            forall|j: int|
                0 <= j < moments@.len() && (#[trigger] moments@[j]) is Some ==> moments@[j]->0.time
                    >= t,
            forall|j: int|
                0 <= j < i && (#[trigger] moments@[j]) is Some && moments@[j]->0.time == t
                    ==> exists|k: int|
                    0 <= k < pairs@.len() && (#[trigger] pairs@[k]).0 == schedules@[j].0
                        && pairs@[k].1 == moments@[j]->0.playlist,
            forall|k: int|
                0 <= k < pairs@.len() ==> exists|j: int|
                    0 <= j < schedules@.len() && (#[trigger] pairs@[k]).0 == (
                    #[trigger] schedules@[j]).0 && schedules@[j].1.active_at(t as int)
                        == pairs@[k].1 && pairs@[k].1 != schedules@[j].1.active_at(from as int),
        decreases moments@.len() - i,
    {
        if let Some(m) = &moments[i] {
            if m.time == t {
                let ghost oldp = pairs@;
                pairs.push((schedules[i].0, m.playlist));
                proof {
                    assert(forall|k: int| 0 <= k < oldp.len() ==> pairs@[k] == oldp[k]);
                    let kn = pairs@.len() - 1;
                    assert((#[trigger] pairs@[kn]).0 == (#[trigger] schedules@[i as int]).0
                        && schedules@[i as int].1.active_at(t as int) == pairs@[kn].1
                        && pairs@[kn].1 != schedules@[i as int].1.active_at(from as int));
                    assert forall|k: int| 0 <= k < pairs@.len() implies exists|j: int|
                        0 <= j < schedules@.len() && (#[trigger] pairs@[k]).0 == (
                        #[trigger] schedules@[j]).0 && schedules@[j].1.active_at(t as int)
                            == pairs@[k].1 && pairs@[k].1 != schedules@[j].1.active_at(
                            from as int,
                        ) by {
                        if k < oldp.len() {
                            assert(pairs@[k] == oldp[k]);
                        }
                    }
                }
            }
        }
        i = i + 1;
    }
    proof {
        assert(pairs@.len() > 0) by {
            let j0 = choose|j: int|
                0 <= j < moments@.len() && (#[trigger] moments@[j]) is Some && moments@[j]->0.time
                    == t;
            assert(moments@[j0] is Some && moments@[j0]->0.time == t);
        }
        assert forall|i: int|
            0 <= i < schedules@.len() && sched_wf(
                (#[trigger] schedules@[i]).1,
                from as int,
            ) implies unchanged_between(schedules@[i].1, from as int, t as int) by {
            match moments@[i] {
                Some(m) => {
                    assert(m.time >= t);
                },
                None => {},
            }
        }
        assert forall|i: int|
            0 <= i < schedules@.len() && sched_wf((#[trigger] schedules@[i]).1, from as int)
                && schedules@[i].1.active_at(t as int) != schedules@[i].1.active_at(
                from as int,
            ) implies exists|k: int|
            0 <= k < pairs@.len() && (#[trigger] pairs@[k]).0 == schedules@[i].0 && pairs@[k].1
                == schedules@[i].1.active_at(t as int) by {
            match moments@[i] {
                Some(m) => {
                    if m.time > t {
                        assert(schedules@[i].1.active_at(t as int) == schedules@[i].1.active_at(
                            from as int,
                        ));
                        assert(false);
                    }
                    assert(m.time == t);
                    assert(moments@[i] is Some && moments@[i]->0.time == t);
                },
                None => {
                    assert(schedules@[i].1.active_at(t as int) == schedules@[i].1.active_at(
                        from as int,
                    ));
                    assert(false);
                },
            }
        }
        let plan = (Plan { time: t, updates: pairs });
        assert(plan.time == t && plan.updates == pairs);
        assert(plan_pairs_sound(schedules@, from as int, plan));
        assert(plan_minimal(schedules@, from as int, plan));
        assert(plan_complete(schedules@, from as int, plan));
    }
    Some(Plan { time: t, updates: pairs })
}

} // verus!
