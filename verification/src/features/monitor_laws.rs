//! What holds of the monitoring data, whatever is done to it.

use crate::features::monitor;
use crate::features::monitor::{AlertLevel, AlertV, KindV, MonV, SchedV, StatusV, WatchV};
use crate::order;
use vstd::prelude::*;

verus! {

// ---------------------------------------------------------------------------
// Deeds
// ---------------------------------------------------------------------------

/// What can be done to the monitoring data.
pub enum Deed {
    Watch { kind: KindV, interval: u64, epoch: u64 },
    Unwatch { id: u32 },
    Schedule { code: Seq<char>, interval: u64 },
    Unschedule { id: u32 },
    Handle { id: u32, code: Seq<char> },
    Level { id: u32, level: AlertLevel },
    Check { id: u32, status: StatusV, now: u64, epoch: u64 },
    Acknowledge { id: u32 },
    RunDue { now: u64, epoch: u64 },
}

/// The monitoring data after a deed.
pub open spec fn done(m: MonV, d: Deed) -> MonV {
    match d {
        Deed::Watch { kind, interval, epoch } => monitor::with_watch(m, kind, interval, epoch),
        Deed::Unwatch { id } => monitor::without_watch(m, id),
        Deed::Schedule { code, interval } => monitor::with_sched(m, code, interval),
        Deed::Unschedule { id } => monitor::without_sched(m, id),
        Deed::Handle { id, code } => monitor::with_handler(m, id, code),
        Deed::Level { id, level } => monitor::with_level(m, id, level),
        Deed::Check { id, status, now, epoch } => monitor::checked(m, id, status, now, epoch),
        Deed::Acknowledge { id } => monitor::acknowledged(m, id),
        Deed::RunDue { now, epoch } => MonV {
            schedules: monitor::run_scheds(m.schedules, now, epoch),
            ..m
        },
    }
}

/// The identity that a deed hands out to a watch, a schedule or an alert, if it hands one out.
pub open spec fn handed_out(m: MonV, d: Deed) -> Option<u32> {
    match d {
        Deed::Watch { .. } => Some(m.next_id),
        Deed::Schedule { .. } => Some(m.next_id),
        Deed::Check { id, status, now, epoch } => match monitor::raised(m, id, status, epoch) {
            Some(a) => Some(a.id),
            None => None,
        },
        _ => None,
    }
}

/// The monitoring data after deeds, one after the other.
pub open spec fn all_done(m: MonV, ds: Seq<Deed>) -> MonV
    decreases ds.len(),
{
    if ds.len() == 0 {
        m
    } else {
        done(all_done(m, ds.drop_last()), ds.last())
    }
}

/// How many identities deeds hand out, one after the other.
pub open spec fn count_handed_out(m: MonV, ds: Seq<Deed>) -> nat
    decreases ds.len(),
{
    if ds.len() == 0 {
        0
    } else {
        count_handed_out(m, ds.drop_last()) + if handed_out(
            all_done(m, ds.drop_last()),
            ds.last(),
        ).is_some() {
            1nat
        } else {
            0
        }
    }
}

// ---------------------------------------------------------------------------
// Identities
// ---------------------------------------------------------------------------

/// True of data in which every identity of a watch, a schedule or an alert lies below the next one
/// to be handed out.
pub open spec fn numbered(m: MonV) -> bool {
    &&& forall|i: int| 0 <= i < m.watches.len() ==> (#[trigger] m.watches[i]).id < m.next_id
    &&& forall|i: int| 0 <= i < m.schedules.len() ==> (#[trigger] m.schedules[i]).id < m.next_id
    &&& forall|i: int| 0 <= i < m.alerts.len() ==> (#[trigger] m.alerts[i]).id < m.next_id
    &&& forall|i: int|
        0 <= i < m.alert_history.len() ==> (#[trigger] m.alert_history[i]).id < m.next_id
}

/// Before anything is monitored, no identity has been handed out.
pub proof fn law_idle_numbered()
    ensures
        numbered(monitor::idle()),
{
}

proof fn lemma_others(s: Seq<AlertV>, id: u32, bound: u32)
    requires
        forall|i: int| 0 <= i < s.len() ==> (#[trigger] s[i]).id < bound,
    ensures
        forall|i: int|
            0 <= i < monitor::alerts_of_others(s, id).len() ==> (
            #[trigger] monitor::alerts_of_others(s, id)[i]).id < bound,
    decreases s.len(),
{
    if s.len() > 0 {
        lemma_others(s.drop_last(), id, bound);
    }
}

proof fn lemma_run(s: Seq<SchedV>, now: u64, epoch: u64, bound: u32)
    requires
        forall|i: int| 0 <= i < s.len() ==> (#[trigger] s[i]).id < bound,
    ensures
        forall|i: int|
            0 <= i < monitor::run_scheds(s, now, epoch).len() ==> (#[trigger] monitor::run_scheds(
                s,
                now,
                epoch,
            )[i]).id < bound,
    decreases s.len(),
{
    if s.len() > 0 {
        lemma_run(s.drop_last(), now, epoch, bound);
    }
}

proof fn lemma_alert_from(s: Seq<AlertV>, id: u32, i: int)
    requires
        0 <= i <= s.len(),
    ensures
        i <= monitor::alert_from(s, id, i) <= s.len(),
    decreases s.len() - i,
{
    if i < s.len() && s[i].id != id {
        lemma_alert_from(s, id, i + 1);
    }
}

/// Whatever is done, every identity stays below the next one to be handed out. That one never
/// falls, and moves on when an identity is handed out.
pub proof fn law_deeds_keep_numbering(m: MonV, d: Deed)
    requires
        numbered(m),
        m.next_id < u32::MAX,
    ensures
        numbered(done(m, d)),
        m.next_id <= done(m, d).next_id <= m.next_id + 1,
        match handed_out(m, d) {
            Some(id) => id == m.next_id && done(m, d).next_id == m.next_id + 1,
            None => done(m, d).next_id == m.next_id,
        },
{
    match d {
        Deed::Check { id, status, now, epoch } => {
            lemma_others(m.alerts, id, m.next_id);
        },
        Deed::Acknowledge { id } => {
            lemma_alert_from(m.alerts, id, 0);
        },
        Deed::RunDue { now, epoch } => {
            lemma_run(m.schedules, now, epoch, m.next_id);
        },
        _ => {},
    }
}

proof fn lemma_unknown(m: MonV, id: u32)
    requires
        numbered(m),
        id >= m.next_id,
    ensures
        !monitor::has_watch(m.watches, id),
        !monitor::has_sched(m.schedules, id),
{
    order::lemma_at(monitor::watch_keys(m.watches), id as u64);
    order::lemma_at(monitor::sched_keys(m.schedules), id as u64);
    if monitor::has_watch(m.watches, id) {
        assert(m.watches[monitor::watch_at(m.watches, id)].id == id);
    }
    if monitor::has_sched(m.schedules, id) {
        assert(m.schedules[monitor::sched_at(m.schedules, id)].id == id);
    }
}

proof fn lemma_due_last(s: Seq<WatchV>, w: WatchV, now: u64)
    requires
        monitor::watch_due(w, now),
    ensures
        monitor::due_ids(s.push(w), now).contains(w.id),
{
    assert(s.push(w).drop_last() =~= s);
    let r = monitor::due_ids(s.push(w), now);
    assert(r[r.len() - 1] == w.id);
}

/// The identity of a new watch is new: no watch, no schedule and no alert has it. The watch is
/// added behind the others and is due at once; nothing else changes.
pub proof fn law_new_watch_is_new(m: MonV, kind: KindV, interval: u64, epoch: u64, now: u64)
    requires
        numbered(m),
        m.next_id < u32::MAX,
    ensures
        ({
            let id = m.next_id;
            let r = monitor::with_watch(m, kind, interval, epoch);
            &&& !monitor::has_watch(m.watches, id) && !monitor::has_sched(m.schedules, id)
            &&& forall|i: int| 0 <= i < m.alerts.len() ==> (#[trigger] m.alerts[i]).id != id
            &&& forall|i: int|
                0 <= i < m.alert_history.len() ==> (#[trigger] m.alert_history[i]).id != id
            &&& r == (MonV {
                watches: m.watches.push(monitor::new_watch(id, kind, interval, epoch)),
                next_id: (id + 1) as u32,
                ..m
            })
            &&& monitor::due_ids(r.watches, now).contains(id)
        }),
{
    lemma_unknown(m, m.next_id);
    lemma_due_last(m.watches, monitor::new_watch(m.next_id, kind, interval, epoch), now);
}

proof fn lemma_fewer(ds: Seq<Deed>, j: int)
    requires
        0 <= j <= ds.len(),
    ensures
        count_handed_out(monitor::idle(), ds.take(j)) <= count_handed_out(monitor::idle(), ds),
    decreases ds.len(),
{
    if j < ds.len() {
        lemma_fewer(ds.drop_last(), j);
        assert(ds.drop_last().take(j) =~= ds.take(j));
    } else {
        assert(ds.take(j) =~= ds);
    }
}

proof fn lemma_numbers(ds: Seq<Deed>)
    requires
        count_handed_out(monitor::idle(), ds) < u32::MAX - 1,
    ensures
        numbered(all_done(monitor::idle(), ds)),
        all_done(monitor::idle(), ds).next_id == count_handed_out(monitor::idle(), ds) + 1,
    decreases ds.len(),
{
    if ds.len() > 0 {
        lemma_numbers(ds.drop_last());
        law_deeds_keep_numbering(all_done(monitor::idle(), ds.drop_last()), ds.last());
    } else {
        law_idle_numbered();
    }
}

proof fn lemma_climbs(ds: Seq<Deed>, i: int)
    requires
        count_handed_out(monitor::idle(), ds) < u32::MAX - 1,
        0 <= i < ds.len(),
        handed_out(all_done(monitor::idle(), ds.take(i)), ds[i]).is_some(),
    ensures
        all_done(monitor::idle(), ds).next_id > handed_out(
            all_done(monitor::idle(), ds.take(i)),
            ds[i],
        )->0,
    decreases ds.len(),
{
    let m = all_done(monitor::idle(), ds.drop_last());
    lemma_numbers(ds.drop_last());
    law_deeds_keep_numbering(m, ds.last());
    if i == ds.len() - 1 {
        assert(ds.take(i) =~= ds.drop_last());
    } else {
        assert(ds.drop_last().take(i) =~= ds.take(i));
        lemma_climbs(ds.drop_last(), i);
    }
}

/// From the start on, no identity is handed out twice, not even that of a watch, a schedule or an
/// alert that is gone, as long as there are identities left.
pub proof fn law_no_identity_twice(ds: Seq<Deed>, i: int, j: int)
    requires
        count_handed_out(monitor::idle(), ds) < u32::MAX - 1,
        0 <= i < j < ds.len(),
        handed_out(all_done(monitor::idle(), ds.take(i)), ds[i]).is_some(),
        handed_out(all_done(monitor::idle(), ds.take(j)), ds[j]).is_some(),
    ensures
        handed_out(all_done(monitor::idle(), ds.take(i)), ds[i]) != handed_out(
            all_done(monitor::idle(), ds.take(j)),
            ds[j],
        ),
{
    let es = ds.take(j);
    assert(es.take(i) =~= ds.take(i));
    lemma_fewer(ds, j);
    lemma_climbs(es, i);
    lemma_numbers(es);
    law_deeds_keep_numbering(all_done(monitor::idle(), es), ds[j]);
}

// ---------------------------------------------------------------------------
// Schedules
// ---------------------------------------------------------------------------

/// Of the schedules that are left after a run, those that are due again at once recur without any
/// pause: a schedule with an interval does not run twice at the same time, and none is left that
/// was for one run.
pub proof fn law_schedules_run_once(s: Seq<SchedV>, now: u64, epoch: u64)
    ensures
        forall|i: int|
            0 <= i < monitor::run_scheds(s, now, epoch).len() && monitor::sched_due(
                #[trigger] monitor::run_scheds(s, now, epoch)[i],
                now,
                epoch,
            ) ==> !monitor::run_scheds(s, now, epoch)[i].one_shot && monitor::run_scheds(
                s,
                now,
                epoch,
            )[i].interval_secs == 0,
    decreases s.len(),
{
    if s.len() > 0 {
        law_schedules_run_once(s.drop_last(), now, epoch);
    }
}

proof fn lemma_due_from(s: Seq<SchedV>, now: u64, epoch: u64, j: int)
    requires
        0 <= j < monitor::due_codes(s, now, epoch).len(),
    ensures
        exists|i: int|
            0 <= i < s.len() && monitor::sched_due(#[trigger] s[i], now, epoch)
                && monitor::due_codes(s, now, epoch)[j] == (s[i].id, s[i].code),
    decreases s.len(),
{
    if s.len() > 0 {
        let d = s.drop_last();
        let before = monitor::due_codes(d, now, epoch);
        if j < before.len() {
            lemma_due_from(d, now, epoch, j);
            let i = choose|i: int|
                0 <= i < d.len() && monitor::sched_due(#[trigger] d[i], now, epoch) && before[j] == (
                    d[i].id,
                    d[i].code,
                );
            assert(s[i] == d[i]);
        } else {
            assert(s[s.len() - 1] == s.last());
        }
    }
}

/// Asking for the schedules that are due a second time at the same time hands out none that recurs
/// with an interval: whatever is handed out then recurs without any pause.
pub proof fn law_second_run_hands_out_no_interval(s: Seq<SchedV>, now: u64, epoch: u64, j: int)
    requires
        0 <= j < monitor::due_codes(monitor::run_scheds(s, now, epoch), now, epoch).len(),
    ensures
        ({
            let r = monitor::run_scheds(s, now, epoch);
            exists|i: int|
                {
                    &&& 0 <= i < r.len()
                    &&& (#[trigger] r[i]).interval_secs == 0 && !r[i].one_shot
                    &&& monitor::due_codes(r, now, epoch)[j] == (r[i].id, r[i].code)
                }
        }),
{
    let r = monitor::run_scheds(s, now, epoch);
    lemma_due_from(r, now, epoch, j);
    law_schedules_run_once(s, now, epoch);
    let i = choose|i: int|
        0 <= i < r.len() && monitor::sched_due(#[trigger] r[i], now, epoch) && monitor::due_codes(
            r,
            now,
            epoch,
        )[j] == (r[i].id, r[i].code);
    assert(r[i].interval_secs == 0 && !r[i].one_shot);
}

/// If every schedule has an interval, asking for those that are due a second time at the same time
/// hands out nothing.
pub proof fn law_second_run_is_empty(s: Seq<SchedV>, now: u64, epoch: u64)
    requires
        forall|i: int| 0 <= i < s.len() ==> (#[trigger] s[i]).interval_secs >= 1,
    ensures
        monitor::due_codes(monitor::run_scheds(s, now, epoch), now, epoch).len() == 0,
    decreases s.len(),
{
    if s.len() > 0 {
        let d = s.drop_last();
        assert forall|i: int| 0 <= i < d.len() implies (#[trigger] d[i]).interval_secs >= 1 by {
            assert(d[i] == s[i]);
        }
        law_second_run_is_empty(d, now, epoch);
        let r = monitor::run_scheds(d, now, epoch);
        let x = s.last();
        assert(x == s[s.len() - 1]);
        let w = monitor::run_scheds(s, now, epoch);
        if w.len() > r.len() {
            assert(w.drop_last() =~= r);
        }
    }
}

// ---------------------------------------------------------------------------
// Watches and alerts
// ---------------------------------------------------------------------------

/// Looking for a watch finds the first with that identity.
pub proof fn lemma_watch_slot(s: Seq<WatchV>, i: int)
    requires
        0 <= i < s.len(),
        forall|j: int| 0 <= j < i ==> (#[trigger] s[j]).id != s[i].id,
    ensures
        monitor::has_watch(s, s[i].id),
        monitor::watch_at(s, s[i].id) == i,
{
    let keys = monitor::watch_keys(s);
    order::lemma_at(keys, s[i].id as u64);
    let k = monitor::watch_at(s, s[i].id);
    assert(keys[i] == s[i].id as u64);
    if k < i {
        assert(keys[k] == s[k].id as u64);
    }
}

/// What is left of alerts without those of one watch: the alerts of the others.
pub proof fn lemma_others_among(s: Seq<AlertV>, id: u32)
    ensures
        forall|a: AlertV| #[trigger]
            monitor::alerts_of_others(s, id).contains(a) <==> s.contains(a) && a.watch_id != id,
        monitor::alerts_of_others(s, id).len() <= s.len(),
    decreases s.len(),
{
    let w = monitor::alerts_of_others(s, id);
    if s.len() > 0 {
        let d = s.drop_last();
        let r = monitor::alerts_of_others(d, id);
        lemma_others_among(d, id);
        assert(s[s.len() - 1] == s.last());
        assert forall|a: AlertV| #[trigger] w.contains(a) <==> s.contains(a) && a.watch_id != id by {
            if d.contains(a) {
                let i = choose|i: int| 0 <= i < d.len() && d[i] == a;
                assert(s[i] == a);
            }
            if s.contains(a) && s.last() != a {
                let i = choose|i: int| 0 <= i < s.len() && s[i] == a;
                assert(d[i] == a);
            }
            if r.contains(a) {
                let i = choose|i: int| 0 <= i < r.len() && r[i] == a;
                assert(w[i] == a);
            }
            if w.len() > r.len() {
                assert(w[r.len() as int] == s.last());
            }
            if w.contains(a) && !r.contains(a) {
                let i = choose|i: int| 0 <= i < w.len() && w[i] == a;
                if i < r.len() {
                    assert(r[i] == a);
                }
            }
        }
    }
}

/// A check keeps the outcome as the last of the watch, and adds it to its history, of which at most
/// the last `max_history` are kept. Of the other watches none changes.
pub proof fn law_check_is_recorded(m: MonV, i: int, s: StatusV, now: u64, epoch: u64)
    requires
        0 <= i < m.watches.len(),
        forall|j: int| 0 <= j < i ==> (#[trigger] m.watches[j]).id != m.watches[i].id,
        m.watches[i].history.len() <= m.max_history,
    ensures
        ({
            let w = monitor::checked(m, m.watches[i].id, s, now, epoch);
            let h = m.watches[i].history;
            let k = w.watches[i].history;
            &&& w.watches.len() == m.watches.len() && w.schedules == m.schedules
            &&& w.watches[i] == (WatchV {
                last_status: s,
                last_check: Some(now),
                history: k,
                ..m.watches[i]
            })
            &&& h.len() < m.max_history ==> k == h.push(s)
            &&& h.len() == m.max_history ==> h.push(s) == seq![h.push(s)[0]] + k
            &&& forall|j: int|
                0 <= j < m.watches.len() && j != i ==> #[trigger] w.watches[j] == m.watches[j]
            &&& w.alert_history == m.alert_history && w.max_history == m.max_history
        }),
{
    lemma_watch_slot(m.watches, i);
    let h = m.watches[i].history.push(s);
    assert(h =~= seq![h[0]] + h.skip(1));
}

/// When a watch is well again, its alerts are gone and those of other watches stay; no alert is
/// raised.
pub proof fn law_recovery_clears_its_alerts(
    m: MonV,
    i: int,
    s: StatusV,
    now: u64,
    epoch: u64,
    a: AlertV,
)
    requires
        0 <= i < m.watches.len(),
        forall|j: int| 0 <= j < i ==> (#[trigger] m.watches[j]).id != m.watches[i].id,
        !m.watches[i].last_status.ok,
        s.ok,
    ensures
        monitor::checked(m, m.watches[i].id, s, now, epoch).alerts.contains(a) <==> m.alerts.contains(
            a,
        ) && a.watch_id != m.watches[i].id,
        monitor::raised(m, m.watches[i].id, s, epoch).is_none(),
{
    lemma_watch_slot(m.watches, i);
    lemma_others_among(m.alerts, m.watches[i].id);
}

/// An alert is raised exactly when a watch turns from well to not well.
pub proof fn law_alert_on_the_turn(m: MonV, i: int, s: StatusV, epoch: u64)
    requires
        0 <= i < m.watches.len(),
        forall|j: int| 0 <= j < i ==> (#[trigger] m.watches[j]).id != m.watches[i].id,
    ensures
        monitor::raised(m, m.watches[i].id, s, epoch).is_some() <==> m.watches[i].last_status.ok
            && !s.ok,
        monitor::raised(m, m.watches[i].id, s, epoch) matches Some(a) ==> a.watch_id
            == m.watches[i].id && a.level == m.watches[i].alert_level && a.message == s.message
            && !a.acknowledged,
{
    lemma_watch_slot(m.watches, i);
}

/// A new watch counts as well, is checked as soon as possible, has no handler, and its alerts are of
/// the gravest level.
pub proof fn law_watch_starts_well(id: u32, kind: KindV, interval: u64, epoch: u64, now: u64)
    ensures
        ({
            let w = monitor::new_watch(id, kind, interval, epoch);
            &&& w.id == id && w.kind == kind && w.interval_secs == interval
            &&& w.last_status.ok && monitor::watch_due(w, now)
            &&& w.alert_handler.is_none() && w.alert_level == AlertLevel::Crit
            &&& w.history.len() == 0 && w.created_at == epoch
        }),
        monitor::idle().max_history == 60 && monitor::idle().next_id == 1,
        monitor::idle().watches.len() == 0 && monitor::idle().schedules.len() == 0,
{
}

/// A watch that has been checked is due again exactly when its interval, in seconds, has passed.
pub proof fn law_watch_due_after_interval(w: WatchV, last: u64, now: u64)
    requires
        w.last_check == Some(last),
        last <= now,
    ensures
        monitor::watch_due(w, now) <==> now - last >= 1000 * w.interval_secs,
{
}

/// The watches that are to be checked are those that are due, in their order.
pub proof fn law_due_watches_are_listed(s: Seq<WatchV>, w: WatchV, now: u64)
    ensures
        monitor::due_ids(s.push(w), now) == (if w.last_check.is_none() || now
            >= w.last_check->0 + 1000 * w.interval_secs || w.interval_secs == 0 {
            monitor::due_ids(s, now).push(w.id)
        } else {
            monitor::due_ids(s, now)
        }),
        monitor::due_ids(Seq::empty(), now).len() == 0,
{
    assert(s.push(w).drop_last() =~= s);
}

/// A schedule that has run is due again exactly when its interval, in seconds, has passed; one that
/// has not run is due, unless it is to wait for a later time.
pub proof fn law_schedule_due(x: SchedV, now: u64, epoch: u64)
    ensures
        x.last_run matches Some(t) ==> t <= now ==> (monitor::sched_due(x, now, epoch) <==> now - t
            >= 1000 * x.interval_secs),
        x.last_run.is_none() ==> (monitor::sched_due(x, now, epoch) <==> x.run_at.is_none()
            || x.run_at->0 <= epoch),
{
}

/// Of the schedules that are due each is handed out once with its code; after that it has run now,
/// or is gone if it was for one run. One that is not due stays as it is.
pub proof fn law_due_schedules_run(s: Seq<SchedV>, x: SchedV, now: u64, epoch: u64)
    ensures
        ({
            let due = monitor::sched_due(x, now, epoch);
            &&& monitor::due_codes(s.push(x), now, epoch) == (if due {
                monitor::due_codes(s, now, epoch).push((x.id, x.code))
            } else {
                monitor::due_codes(s, now, epoch)
            })
            &&& monitor::run_scheds(s.push(x), now, epoch) == (if !due {
                monitor::run_scheds(s, now, epoch).push(x)
            } else if x.one_shot {
                monitor::run_scheds(s, now, epoch)
            } else {
                monitor::run_scheds(s, now, epoch).push(SchedV { last_run: Some(now), ..x })
            })
        }),
{
    assert(s.push(x).drop_last() =~= s);
}

/// A new schedule recurs and is due at once.
pub proof fn law_new_schedule(m: MonV, code: Seq<char>, interval: u64, now: u64, epoch: u64)
    requires
        numbered(m),
        m.next_id < u32::MAX,
    ensures
        ({
            let w = monitor::with_sched(m, code, interval);
            let x = w.schedules.last();
            &&& w.schedules == m.schedules.push(x) && w.next_id == m.next_id + 1
            &&& x.id == m.next_id && x.code == code && x.interval_secs == interval
            &&& !x.one_shot && monitor::sched_due(x, now, epoch)
            &&& w.watches == m.watches && w.alerts == m.alerts
        }),
{
    lemma_unknown(m, m.next_id);
}

/// Acknowledging an alert marks it and no other, and puts it into the history, of which the last
/// hundred are kept.
pub proof fn law_acknowledged_once(m: MonV, i: int)
    requires
        0 <= i < m.alerts.len(),
        forall|j: int| 0 <= j < i ==> (#[trigger] m.alerts[j]).id != m.alerts[i].id,
        m.alert_history.len() <= 100,
    ensures
        ({
            let w = monitor::acknowledged(m, m.alerts[i].id);
            let a = AlertV { acknowledged: true, ..m.alerts[i] };
            let h = m.alert_history;
            &&& w.alerts == m.alerts.update(i, a)
            &&& h.len() < 100 ==> w.alert_history == h.push(a)
            &&& h.len() == 100 ==> h.push(a) == seq![h[0]] + w.alert_history
            &&& w.watches == m.watches && w.schedules == m.schedules && w.next_id == m.next_id
        }),
{
    lemma_alert_found(m.alerts, m.alerts[i].id, 0, i);
    let h = m.alert_history.push(AlertV { acknowledged: true, ..m.alerts[i] });
    assert(h =~= seq![h[0]] + h.skip(1));
}

proof fn lemma_alert_found(s: Seq<AlertV>, id: u32, from: int, i: int)
    requires
        0 <= from <= i < s.len(),
        s[i].id == id,
        forall|j: int| 0 <= j < i ==> (#[trigger] s[j]).id != id,
    ensures
        monitor::alert_from(s, id, from) == i,
    decreases i - from,
{
    if from < i {
        assert(s[from].id != id);
        lemma_alert_found(s, id, from + 1, i);
    }
}

/// Levels by number: 0 for information, 1 for a warning, everything else is critical.
pub proof fn law_levels_by_number(n: int)
    ensures
        monitor::level_of(n) == AlertLevel::Info <==> n == 0,
        monitor::level_of(n) == AlertLevel::Warn <==> n == 1,
        monitor::level_of(n) == AlertLevel::Crit <==> n != 0 && n != 1,
{
}

/// What is set for a watch, its handler or its level, is set for it and for no other.
pub proof fn law_settings_of_one_watch(m: MonV, i: int, code: Seq<char>, level: AlertLevel)
    requires
        0 <= i < m.watches.len(),
        forall|j: int| 0 <= j < i ==> (#[trigger] m.watches[j]).id != m.watches[i].id,
    ensures
        monitor::with_handler(m, m.watches[i].id, code) == (MonV {
            watches: m.watches.update(i, WatchV { alert_handler: Some(code), ..m.watches[i] }),
            ..m
        }),
        monitor::with_level(m, m.watches[i].id, level) == (MonV {
            watches: m.watches.update(i, WatchV { alert_level: level, ..m.watches[i] }),
            ..m
        }),
        monitor::without_watch(m, m.watches[i].id) == (MonV {
            watches: m.watches.remove(i),
            ..m
        }),
{
    lemma_watch_slot(m.watches, i);
}

/// The uptime counts the outcomes that were well.
pub proof fn law_uptime_counts_the_well(s: Seq<StatusV>)
    ensures
        monitor::good(s) == s.filter(|x: StatusV| x.ok).len(),
        monitor::good(s) <= s.len(),
    decreases s.len(),
{
    reveal(Seq::filter);
    if s.len() > 0 {
        law_uptime_counts_the_well(s.drop_last());
    }
}

proof fn lemma_health_counts(s: Seq<WatchV>, a: Seq<AlertV>)
    ensures
        monitor::healthy(s) == s.filter(|w: WatchV| w.last_status.ok).len(),
        monitor::healthy(s) <= s.len(),
        monitor::open_alerts(a) == a.filter(|x: AlertV| !x.acknowledged).len(),
    decreases s.len() + a.len(),
{
    reveal(Seq::filter);
    if s.len() > 0 {
        lemma_health_counts(s.drop_last(), a);
    } else if a.len() > 0 {
        lemma_health_counts(s, a.drop_last());
    }
}

/// The health of a unit lies between 0 and 100. Alone, without alerts and with no score, it is the
/// share of its watches that are well, in percent, and 100 if it watches nothing. Each open alert
/// costs 20, up to 50; each peer brings 5, up to 20; ten points of score bring 1, up to 10.
pub proof fn law_health(m: MonV, peers: int, fitness: int)
    requires
        peers >= 0,
    ensures
        ({
            let n = m.watches.len() as int;
            let up = m.watches.filter(|w: WatchV| w.last_status.ok).len() as int;
            let share = if n == 0 {
                100
            } else {
                up * 100 / n
            };
            let open = m.alerts.filter(|a: AlertV| !a.acknowledged).len() as int;
            let cost = if open >= 3 {
                50
            } else {
                20 * open
            };
            let company = if peers >= 4 {
                20
            } else {
                5 * peers
            };
            let merit = if fitness >= 100 {
                10
            } else if fitness >= 0 {
                fitness / 10
            } else {
                0
            };
            let h = monitor::health(m, peers, fitness);
            let sum = share - cost + company + merit;
            &&& 0 <= h <= 100
            &&& 0 <= sum <= 100 ==> h == sum
            &&& sum < 0 ==> h == 0
            &&& sum > 100 ==> h == 100
        }),
{
    lemma_health_counts(m.watches, m.alerts);
}

} // verus!
