//! Watches, alerts, schedules and the dashboard.
//!
//! Times of checks and runs are milliseconds of the machine's clock; time stamps are seconds since
//! the Unix epoch. Callers pass both in.

use crate::clock::now_millis;
use crate::order;
use crate::order::sort_desc;
use crate::spawn;
use crate::spawn::seconds_since;
use crate::text;
use crate::text::{push_i64, push_u64, push_usize, take_chars, text};
use vstd::prelude::*;

verus! {

/// What is watched.
#[derive(Debug)]
pub enum WatchKind {
    Url(String),
    File(String),
    Process(String),
}

/// The mathematical form of what is watched.
pub enum KindV {
    Url(Seq<char>),
    File(Seq<char>),
    Process(Seq<char>),
}

impl View for WatchKind {
    type V = KindV;

    open spec fn view(&self) -> KindV {
        match *self {
            WatchKind::Url(s) => KindV::Url(s@),
            WatchKind::File(s) => KindV::File(s@),
            WatchKind::Process(s) => KindV::Process(s@),
        }
    }
}

impl Clone for WatchKind {
    fn clone(&self) -> (r: Self)
        ensures
            r@ == self@,
    {
        match self {
            WatchKind::Url(s) => WatchKind::Url(s.clone()),
            WatchKind::File(s) => WatchKind::File(s.clone()),
            WatchKind::Process(s) => WatchKind::Process(s.clone()),
        }
    }
}

/// The name of what is watched.
pub open spec fn kind_name(k: KindV) -> Seq<char> {
    match k {
        KindV::Url(s) => s,
        KindV::File(s) => s,
        KindV::Process(s) => s,
    }
}

/// The name of what is watched, with its kind before it.
pub open spec fn kind_text(k: KindV) -> Seq<char> {
    match k {
        KindV::Url(s) => "url:"@ + s,
        KindV::File(s) => "file:"@ + s,
        KindV::Process(s) => "proc:"@ + s,
    }
}

impl WatchKind {
    fn name(&self) -> (s: &str)
        ensures
            s@ == kind_name(self@),
    {
        match self {
            WatchKind::Url(s) => s.as_str(),
            WatchKind::File(s) => s.as_str(),
            WatchKind::Process(s) => s.as_str(),
        }
    }

    fn describe(&self) -> (s: String)
        ensures
            s@ == kind_text(self@),
    {
        let mut out = match self {
            WatchKind::Url(_) => text("url:"),
            WatchKind::File(_) => text("file:"),
            WatchKind::Process(_) => text("proc:"),
        };
        out.append(self.name());
        out
    }
}

/// The outcome of a check.
#[derive(Debug)]
pub struct WatchStatus {
    pub ok: bool,
    /// HTTP status or exit code.
    pub code: i32,
    pub response_ms: u64,
    pub message: String,
    pub timestamp: u64,
}

/// The mathematical form of an outcome.
#[verifier::ext_equal]
pub struct StatusV {
    pub ok: bool,
    pub code: i32,
    pub response_ms: u64,
    pub message: Seq<char>,
    pub timestamp: u64,
}

impl View for WatchStatus {
    type V = StatusV;

    open spec fn view(&self) -> StatusV {
        StatusV {
            ok: self.ok,
            code: self.code,
            response_ms: self.response_ms,
            message: self.message@,
            timestamp: self.timestamp,
        }
    }
}

impl Clone for WatchStatus {
    fn clone(&self) -> (r: Self)
        ensures
            r@ == self@,
    {
        WatchStatus {
            ok: self.ok,
            code: self.code,
            response_ms: self.response_ms,
            message: self.message.clone(),
            timestamp: self.timestamp,
        }
    }
}

/// An outcome that is well.
pub open spec fn up_status(code: i32, ms: u64, msg: Seq<char>, epoch: u64) -> StatusV {
    StatusV { ok: true, code, response_ms: ms, message: msg, timestamp: epoch }
}

/// An outcome that is not well.
pub open spec fn down_status(code: i32, msg: Seq<char>, epoch: u64) -> StatusV {
    StatusV { ok: false, code, response_ms: 0, message: msg, timestamp: epoch }
}

fn now_secs() -> u64 {
    now_millis() / 1000
}

impl WatchStatus {
    /// An outcome that is well, as of `epoch`.
    pub fn up_at(code: i32, ms: u64, msg: String, epoch: u64) -> (r: Self)
        ensures
            r@ == up_status(code, ms, msg@, epoch),
    {
        WatchStatus { ok: true, code, response_ms: ms, message: msg, timestamp: epoch }
    }

    /// An outcome that is not well, as of `epoch`.
    pub fn down_at(code: i32, msg: String, epoch: u64) -> (r: Self)
        ensures
            r@ == down_status(code, msg@, epoch),
    {
        WatchStatus { ok: false, code, response_ms: 0, message: msg, timestamp: epoch }
    }

    /// An outcome that is well, as of now.
    pub fn up(code: i32, ms: u64, msg: String) -> (r: Self)
        ensures
            exists|epoch: u64| r@ == #[trigger] up_status(code, ms, msg@, epoch),
    {
        Self::up_at(code, ms, msg, now_secs())
    }

    /// An outcome that is not well, as of now.
    pub fn down(code: i32, msg: String) -> (r: Self)
        ensures
            exists|epoch: u64| r@ == #[trigger] down_status(code, msg@, epoch),
    {
        Self::down_at(code, msg, now_secs())
    }
}

/// How grave an alert is.
#[derive(Clone, Copy, Debug, PartialEq, Eq, PartialOrd, Structural)]
pub enum AlertLevel {
    Info,
    Warn,
    Crit,
}

/// The word for a level.
pub open spec fn level_label(l: AlertLevel) -> Seq<char> {
    match l {
        AlertLevel::Info => "INFO"@,
        AlertLevel::Warn => "WARN"@,
        AlertLevel::Crit => "CRIT"@,
    }
}

/// The level that a number stands for.
pub open spec fn level_of(v: int) -> AlertLevel {
    if v == 0 {
        AlertLevel::Info
    } else if v == 1 {
        AlertLevel::Warn
    } else {
        AlertLevel::Crit
    }
}

impl AlertLevel {
    /// The word for the level.
    pub fn label(&self) -> (s: &str)
        ensures
            s@ == level_label(*self),
    {
        match self {
            AlertLevel::Info => "INFO",
            AlertLevel::Warn => "WARN",
            AlertLevel::Crit => "CRIT",
        }
    }

    /// The level that a number stands for: 0 and 1 are the two lower ones, any other the highest.
    pub fn from_val(v: i64) -> (l: Self)
        ensures
            l == level_of(v as int),
    {
        match v {
            0 => AlertLevel::Info,
            1 => AlertLevel::Warn,
            _ => AlertLevel::Crit,
        }
    }
}

/// A watch that turned bad.
#[derive(Debug)]
pub struct Alert {
    pub id: u32,
    pub watch_id: u32,
    pub level: AlertLevel,
    pub message: String,
    pub timestamp: u64,
    pub acknowledged: bool,
}

/// The mathematical form of an alert.
#[verifier::ext_equal]
pub struct AlertV {
    pub id: u32,
    pub watch_id: u32,
    pub level: AlertLevel,
    pub message: Seq<char>,
    pub timestamp: u64,
    pub acknowledged: bool,
}

impl View for Alert {
    type V = AlertV;

    open spec fn view(&self) -> AlertV {
        AlertV {
            id: self.id,
            watch_id: self.watch_id,
            level: self.level,
            message: self.message@,
            timestamp: self.timestamp,
            acknowledged: self.acknowledged,
        }
    }
}

impl Clone for Alert {
    fn clone(&self) -> (r: Self)
        ensures
            r@ == self@,
    {
        Alert {
            id: self.id,
            watch_id: self.watch_id,
            level: self.level,
            message: self.message.clone(),
            timestamp: self.timestamp,
            acknowledged: self.acknowledged,
        }
    }
}

/// A thing that is checked again and again.
#[derive(Debug)]
pub struct WatchEntry {
    pub id: u32,
    pub kind: WatchKind,
    pub interval_secs: u64,
    pub last_check: Option<u64>,
    pub last_status: WatchStatus,
    pub history: Vec<WatchStatus>,
    /// The code to run when the watch turns bad.
    pub alert_handler: Option<String>,
    pub alert_level: AlertLevel,
    pub created_at: u64,
}

/// The mathematical form of a watch.
#[verifier::ext_equal]
pub struct WatchV {
    pub id: u32,
    pub kind: KindV,
    pub interval_secs: u64,
    pub last_check: Option<u64>,
    pub last_status: StatusV,
    pub history: Seq<StatusV>,
    pub alert_handler: Option<Seq<char>>,
    pub alert_level: AlertLevel,
    pub created_at: u64,
}

/// The mathematical form of a row of outcomes.
pub open spec fn status_views(s: Seq<WatchStatus>) -> Seq<StatusV> {
    Seq::new(s.len(), |i: int| s[i]@)
}

/// The mathematical form of a row of alerts.
pub open spec fn alert_views(s: Seq<Alert>) -> Seq<AlertV> {
    Seq::new(s.len(), |i: int| s[i]@)
}

impl View for WatchEntry {
    type V = WatchV;

    open spec fn view(&self) -> WatchV {
        WatchV {
            id: self.id,
            kind: self.kind@,
            interval_secs: self.interval_secs,
            last_check: self.last_check,
            last_status: self.last_status@,
            history: status_views(self.history@),
            alert_handler: text::opt_text(self.alert_handler),
            alert_level: self.alert_level,
            created_at: self.created_at,
        }
    }
}

/// Code that is run again and again.
#[derive(Debug)]
pub struct SchedEntry {
    pub id: u32,
    pub code: String,
    pub interval_secs: u64,
    pub last_run: Option<u64>,
    /// Removed after one run.
    pub one_shot: bool,
    /// Not run before this time stamp.
    pub run_at: Option<u64>,
}

/// The mathematical form of a schedule.
#[verifier::ext_equal]
pub struct SchedV {
    pub id: u32,
    pub code: Seq<char>,
    pub interval_secs: u64,
    pub last_run: Option<u64>,
    pub one_shot: bool,
    pub run_at: Option<u64>,
}

impl View for SchedEntry {
    type V = SchedV;

    open spec fn view(&self) -> SchedV {
        SchedV {
            id: self.id,
            code: self.code@,
            interval_secs: self.interval_secs,
            last_run: self.last_run,
            one_shot: self.one_shot,
            run_at: self.run_at,
        }
    }
}

/// All monitoring data of a unit. No two watches, and no two schedules, have the same identity.
#[derive(Debug)]
pub struct MonitorState {
    pub watches: Vec<WatchEntry>,
    pub alerts: Vec<Alert>,
    pub alert_history: Vec<Alert>,
    pub schedules: Vec<SchedEntry>,
    pub next_id: u32,
    /// The number of outcomes kept of each watch.
    pub max_history: usize,
}

/// The mathematical form of the monitoring data.
#[verifier::ext_equal]
pub struct MonV {
    pub watches: Seq<WatchV>,
    pub alerts: Seq<AlertV>,
    pub alert_history: Seq<AlertV>,
    pub schedules: Seq<SchedV>,
    pub next_id: u32,
    pub max_history: usize,
}

/// The mathematical form of a row of watches.
pub open spec fn watch_views(s: Seq<WatchEntry>) -> Seq<WatchV> {
    Seq::new(s.len(), |i: int| s[i]@)
}

/// The mathematical form of a row of schedules.
pub open spec fn sched_views(s: Seq<SchedEntry>) -> Seq<SchedV> {
    Seq::new(s.len(), |i: int| s[i]@)
}

impl View for MonitorState {
    type V = MonV;

    open spec fn view(&self) -> MonV {
        MonV {
            watches: watch_views(self.watches@),
            alerts: alert_views(self.alerts@),
            alert_history: alert_views(self.alert_history@),
            schedules: sched_views(self.schedules@),
            next_id: self.next_id,
            max_history: self.max_history,
        }
    }
}

/// The identities of a row of watches.
pub open spec fn watch_keys(s: Seq<WatchV>) -> Seq<u64> {
    Seq::new(s.len(), |i: int| s[i].id as u64)
}

/// The identities of a row of schedules.
pub open spec fn sched_keys(s: Seq<SchedV>) -> Seq<u64> {
    Seq::new(s.len(), |i: int| s[i].id as u64)
}

/// The position of a watch, or the number of watches.
pub open spec fn watch_at(s: Seq<WatchV>, id: u32) -> int {
    order::at(watch_keys(s), id as u64)
}

/// The position of a schedule, or the number of schedules.
pub open spec fn sched_at(s: Seq<SchedV>, id: u32) -> int {
    order::at(sched_keys(s), id as u64)
}

/// True if there is a watch with this identity.
pub open spec fn has_watch(s: Seq<WatchV>, id: u32) -> bool {
    0 <= watch_at(s, id) < s.len()
}

/// True if there is a schedule with this identity.
pub open spec fn has_sched(s: Seq<SchedV>, id: u32) -> bool {
    0 <= sched_at(s, id) < s.len()
}

/// The watches with `w` in the place of the one with the same identity, or added.
pub open spec fn put_watch(s: Seq<WatchV>, w: WatchV) -> Seq<WatchV> {
    if has_watch(s, w.id) {
        s.update(watch_at(s, w.id), w)
    } else {
        s.push(w)
    }
}

/// The schedules with `x` in the place of the one with the same identity, or added.
pub open spec fn put_sched(s: Seq<SchedV>, x: SchedV) -> Seq<SchedV> {
    if has_sched(s, x.id) {
        s.update(sched_at(s, x.id), x)
    } else {
        s.push(x)
    }
}

/// Nothing monitored.
pub open spec fn idle() -> MonV {
    MonV {
        watches: Seq::empty(),
        alerts: Seq::empty(),
        alert_history: Seq::empty(),
        schedules: Seq::empty(),
        next_id: 1,
        max_history: 60,
    }
}

/// A watch before its first check.
pub open spec fn new_watch(id: u32, kind: KindV, interval: u64, epoch: u64) -> WatchV {
    WatchV {
        id,
        kind,
        interval_secs: interval,
        last_check: None,
        last_status: up_status(0, 0, "pending"@, epoch),
        history: Seq::empty(),
        alert_handler: None,
        alert_level: AlertLevel::Crit,
        created_at: epoch,
    }
}

/// The monitoring data with one more watch.
pub open spec fn with_watch(m: MonV, kind: KindV, interval: u64, epoch: u64) -> MonV {
    MonV {
        watches: put_watch(m.watches, new_watch(m.next_id, kind, interval, epoch)),
        next_id: m.next_id.wrapping_add(1),
        ..m
    }
}

/// The monitoring data without a watch.
pub open spec fn without_watch(m: MonV, id: u32) -> MonV {
    if has_watch(m.watches, id) {
        MonV { watches: m.watches.remove(watch_at(m.watches, id)), ..m }
    } else {
        m
    }
}

/// The monitoring data with one more schedule.
pub open spec fn with_sched(m: MonV, code: Seq<char>, interval: u64) -> MonV {
    MonV {
        schedules: put_sched(
            m.schedules,
            SchedV {
                id: m.next_id,
                code,
                interval_secs: interval,
                last_run: None,
                one_shot: false,
                run_at: None,
            },
        ),
        next_id: m.next_id.wrapping_add(1),
        ..m
    }
}

/// The monitoring data without a schedule.
pub open spec fn without_sched(m: MonV, id: u32) -> MonV {
    if has_sched(m.schedules, id) {
        MonV { schedules: m.schedules.remove(sched_at(m.schedules, id)), ..m }
    } else {
        m
    }
}

/// The monitoring data with code to run when a watch turns bad.
pub open spec fn with_handler(m: MonV, id: u32, code: Seq<char>) -> MonV {
    if has_watch(m.watches, id) {
        let i = watch_at(m.watches, id);
        MonV {
            watches: m.watches.update(i, WatchV { alert_handler: Some(code), ..m.watches[i] }),
            ..m
        }
    } else {
        m
    }
}

/// The monitoring data with the level of a watch's alerts.
pub open spec fn with_level(m: MonV, id: u32, level: AlertLevel) -> MonV {
    if has_watch(m.watches, id) {
        let i = watch_at(m.watches, id);
        MonV {
            watches: m.watches.update(i, WatchV { alert_level: level, ..m.watches[i] }),
            ..m
        }
    } else {
        m
    }
}

/// A history with one more outcome, of which the first is dropped if it grows beyond `max`.
pub open spec fn recorded(h: Seq<StatusV>, s: StatusV, max: usize) -> Seq<StatusV> {
    if h.len() + 1 > max {
        h.push(s).skip(1)
    } else {
        h.push(s)
    }
}

/// The alerts of other watches.
pub open spec fn alerts_of_others(s: Seq<AlertV>, id: u32) -> Seq<AlertV>
    decreases s.len(),
{
    if s.len() == 0 {
        Seq::empty()
    } else if s.last().watch_id != id {
        alerts_of_others(s.drop_last(), id).push(s.last())
    } else {
        alerts_of_others(s.drop_last(), id)
    }
}

/// The alert that an outcome raises: one if the watch was well before and is not now.
pub open spec fn raised(m: MonV, id: u32, s: StatusV, epoch: u64) -> Option<AlertV> {
    if has_watch(m.watches, id) && m.watches[watch_at(m.watches, id)].last_status.ok && !s.ok {
        Some(
            AlertV {
                id: m.next_id,
                watch_id: id,
                level: m.watches[watch_at(m.watches, id)].alert_level,
                message: s.message,
                timestamp: epoch,
                acknowledged: false,
            },
        )
    } else {
        None
    }
}

/// The monitoring data after an outcome. An alert that it raises is added; if the watch was bad
/// and is well now, its alerts are gone.
pub open spec fn checked(m: MonV, id: u32, s: StatusV, now: u64, epoch: u64) -> MonV {
    if has_watch(m.watches, id) {
        let i = watch_at(m.watches, id);
        let w = m.watches[i];
        let watches = m.watches.update(
            i,
            WatchV {
                last_status: s,
                last_check: Some(now),
                history: recorded(w.history, s, m.max_history),
                ..w
            },
        );
        match raised(m, id, s, epoch) {
            Some(a) => MonV {
                watches,
                alerts: m.alerts.push(a),
                next_id: m.next_id.wrapping_add(1),
                ..m
            },
            None => if !w.last_status.ok && s.ok {
                MonV { watches, alerts: alerts_of_others(m.alerts, id), ..m }
            } else {
                MonV { watches, ..m }
            },
        }
    } else {
        m
    }
}

/// The position of an alert, or the number of alerts.
pub open spec fn alert_from(s: Seq<AlertV>, id: u32, i: int) -> int
    decreases s.len() - i,
{
    if i >= s.len() {
        s.len() as int
    } else if s[i].id == id {
        i
    } else {
        alert_from(s, id, i + 1)
    }
}

/// A row of past alerts with one more, of which the last hundred are kept.
pub open spec fn archived(h: Seq<AlertV>, a: AlertV) -> Seq<AlertV> {
    if h.len() + 1 > 100 {
        h.push(a).skip(1)
    } else {
        h.push(a)
    }
}

/// The monitoring data after an alert has been acknowledged.
pub open spec fn acknowledged(m: MonV, id: u32) -> MonV {
    let i = alert_from(m.alerts, id, 0);
    if i < m.alerts.len() {
        let a = AlertV { acknowledged: true, ..m.alerts[i] };
        MonV {
            alerts: m.alerts.update(i, a),
            alert_history: archived(m.alert_history, a),
            ..m
        }
    } else {
        m
    }
}

/// Milliseconds from `start` to `now`.
pub open spec fn millis_between(start: u64, now: u64) -> int {
    if now < start {
        0
    } else {
        now - start
    }
}

/// True of a watch that is to be checked.
pub open spec fn watch_due(w: WatchV, now: u64) -> bool {
    match w.last_check {
        None => true,
        Some(t) => millis_between(t, now) >= w.interval_secs * 1000,
    }
}

/// The watches that are to be checked.
pub open spec fn due_ids(s: Seq<WatchV>, now: u64) -> Seq<u32>
    decreases s.len(),
{
    if s.len() == 0 {
        Seq::empty()
    } else if watch_due(s.last(), now) {
        due_ids(s.drop_last(), now).push(s.last().id)
    } else {
        due_ids(s.drop_last(), now)
    }
}

/// True of a schedule that is to be run.
pub open spec fn sched_due(x: SchedV, now: u64, epoch: u64) -> bool {
    match x.last_run {
        None => match x.run_at {
            Some(a) => epoch >= a,
            None => true,
        },
        Some(t) => millis_between(t, now) >= x.interval_secs * 1000,
    }
}

/// The schedules that are to be run, with their code.
pub open spec fn due_codes(s: Seq<SchedV>, now: u64, epoch: u64) -> Seq<(u32, Seq<char>)>
    decreases s.len(),
{
    if s.len() == 0 {
        Seq::empty()
    } else if sched_due(s.last(), now, epoch) {
        due_codes(s.drop_last(), now, epoch).push((s.last().id, s.last().code))
    } else {
        due_codes(s.drop_last(), now, epoch)
    }
}

/// The schedules after those that are due have been handed out: they have run now, and those for
/// one run are gone.
pub open spec fn run_scheds(s: Seq<SchedV>, now: u64, epoch: u64) -> Seq<SchedV>
    decreases s.len(),
{
    if s.len() == 0 {
        Seq::empty()
    } else {
        let r = run_scheds(s.drop_last(), now, epoch);
        let x = s.last();
        if sched_due(x, now, epoch) {
            if x.one_shot {
                r
            } else {
                r.push(SchedV { last_run: Some(now), ..x })
            }
        } else {
            r.push(x)
        }
    }
}

/// The mathematical form of identities with code.
pub open spec fn code_views(s: Seq<(u32, String)>) -> Seq<(u32, Seq<char>)> {
    Seq::new(s.len(), |i: int| (s[i].0, s[i].1@))
}

/// A history never holds more outcomes than the limit.
pub proof fn law_history_bounded(h: Seq<StatusV>, s: StatusV, max: usize)
    requires
        h.len() <= max,
    ensures
        recorded(h, s, max).len() <= max,
{
}

/// A check that finds a well watch well, or a bad watch bad, leaves the alerts as they are.
pub proof fn law_steady_watch_is_quiet(m: MonV, id: u32, s: StatusV, now: u64, epoch: u64)
    requires
        has_watch(m.watches, id),
        m.watches[watch_at(m.watches, id)].last_status.ok == s.ok,
    ensures
        checked(m, id, s, now, epoch).alerts == m.alerts,
        raised(m, id, s, epoch).is_none(),
{
}

proof fn lemma_alerts_of_others(s: Seq<AlertV>, id: u32)
    ensures
        forall|i: int|
            0 <= i < alerts_of_others(s, id).len() ==> (#[trigger] alerts_of_others(
                s,
                id,
            )[i]).watch_id != id,
    decreases s.len(),
{
    if s.len() > 0 {
        lemma_alerts_of_others(s.drop_last(), id);
    }
}

/// After a watch has recovered, none of its alerts is left.
pub proof fn law_recovery_resolves(m: MonV, id: u32, s: StatusV, now: u64, epoch: u64)
    requires
        has_watch(m.watches, id),
        !m.watches[watch_at(m.watches, id)].last_status.ok,
        s.ok,
    ensures
        forall|i: int|
            0 <= i < checked(m, id, s, now, epoch).alerts.len() ==> (#[trigger] checked(
                m,
                id,
                s,
                now,
                epoch,
            ).alerts[i]).watch_id != id,
{
    lemma_alerts_of_others(m.alerts, id);
}

impl Default for MonitorState {
    fn default() -> (r: Self)
        ensures
            r@ == idle(),
    {
        Self::new()
    }
}

impl MonitorState {
    /// Nothing monitored.
    pub fn new() -> (r: Self)
        ensures
            r@ == idle(),
    {
        let r = MonitorState {
            watches: Vec::new(),
            alerts: Vec::new(),
            alert_history: Vec::new(),
            schedules: Vec::new(),
            next_id: 1,
            max_history: 60,
        };
        assert(r@ =~= idle());
        r
    }

    fn next_id(&mut self) -> (id: u32)
        ensures
            id == old(self)@.next_id,
            final(self)@ == (MonV { next_id: id.wrapping_add(1), ..old(self)@ }),
    {
        let id: u32 = self.next_id;
        self.next_id = id.wrapping_add(1);
        id
    }

    /// The position of a watch, or the number of watches.
    pub fn watch_slot(&self, id: u32) -> (r: usize)
        ensures
            r == watch_at(self@.watches, id),
            r <= self.watches@.len(),
    {
        let mut i: usize = 0;
        while i < self.watches.len() && self.watches[i].id != id
            invariant
                i <= self.watches@.len(),
                order::at_from(watch_keys(self@.watches), id as u64, i as int) == watch_at(
                    self@.watches,
                    id,
                ),
            decreases self.watches@.len() - i,
        {
            assert(watch_keys(self@.watches)[i as int] == self.watches@[i as int].id as u64);
            i = i + 1;
        }
        i
    }

    fn sched_slot(&self, id: u32) -> (r: usize)
        ensures
            r == sched_at(self@.schedules, id),
            r <= self.schedules@.len(),
    {
        let mut i: usize = 0;
        while i < self.schedules.len() && self.schedules[i].id != id
            invariant
                i <= self.schedules@.len(),
                order::at_from(sched_keys(self@.schedules), id as u64, i as int) == sched_at(
                    self@.schedules,
                    id,
                ),
            decreases self.schedules@.len() - i,
        {
            assert(sched_keys(self@.schedules)[i as int] == self.schedules@[i as int].id as u64);
            i = i + 1;
        }
        i
    }

    /// Adds a watch, as of `epoch`: its identity.
    pub fn add_watch(&mut self, kind: WatchKind, interval_secs: u64, epoch: u64) -> (id: u32)
        ensures
            id == old(self)@.next_id,
            final(self)@ == with_watch(old(self)@, kind@, interval_secs, epoch),
    {
        let id = self.next_id();
        let w = WatchEntry {
            id,
            kind,
            interval_secs,
            last_check: None,
            last_status: WatchStatus {
                ok: true,
                code: 0,
                response_ms: 0,
                message: text("pending"),
                timestamp: epoch,
            },
            history: Vec::new(),
            alert_handler: None,
            alert_level: AlertLevel::Crit,
            created_at: epoch,
        };
        let ghost wv = w@;
        assert(wv =~= new_watch(id, kind@, interval_secs, epoch));
        let i = self.watch_slot(id);
        if i < self.watches.len() {
            self.watches.set(i, w);
        } else {
            self.watches.push(w);
        }
        assert(self@.watches =~= put_watch(old(self)@.watches, wv));
        id
    }

    /// Removes a watch. False if there is none.
    pub fn remove_watch(&mut self, id: u32) -> (found: bool)
        ensures
            found == has_watch(old(self)@.watches, id),
            final(self)@ == without_watch(old(self)@, id),
    {
        let i = self.watch_slot(id);
        if i < self.watches.len() {
            let _ = self.watches.remove(i);
            assert(self@.watches =~= old(self)@.watches.remove(i as int));
            true
        } else {
            false
        }
    }

    /// Sets the code to run when a watch turns bad.
    pub fn set_alert_handler(&mut self, watch_id: u32, code: String)
        ensures
            final(self)@ == with_handler(old(self)@, watch_id, code@),
    {
        let ghost cv = code@;
        let i = self.watch_slot(watch_id);
        if i < self.watches.len() {
            assert(self@.watches[i as int] == self.watches@[i as int]@);
            self.watches[i].alert_handler = Some(code);
            assert(self@.watches =~= with_handler(old(self)@, watch_id, cv).watches);
        }
    }

    /// Sets the level of a watch's alerts.
    pub fn set_alert_level(&mut self, watch_id: u32, level: AlertLevel)
        ensures
            final(self)@ == with_level(old(self)@, watch_id, level),
    {
        let i = self.watch_slot(watch_id);
        if i < self.watches.len() {
            assert(self@.watches[i as int] == self.watches@[i as int]@);
            self.watches[i].alert_level = level;
            assert(self@.watches =~= with_level(old(self)@, watch_id, level).watches);
        }
    }

    fn drop_alerts(&mut self, watch_id: u32)
        ensures
            final(self)@ == (MonV {
                alerts: alerts_of_others(old(self)@.alerts, watch_id),
                ..old(self)@
            }),
    {
        let mut kept: Vec<Alert> = Vec::new();
        let mut i: usize = 0;
        assert(alert_views(kept@) =~= alerts_of_others(self@.alerts.take(0), watch_id));
        while i < self.alerts.len()
            invariant
                i <= self.alerts@.len(),
                self == old(self),
                alert_views(kept@) == alerts_of_others(self@.alerts.take(i as int), watch_id),
            decreases self.alerts@.len() - i,
        {
            let ghost before = alert_views(kept@);
            assert(self@.alerts.take(i + 1).drop_last() =~= self@.alerts.take(i as int));
            if self.alerts[i].watch_id != watch_id {
                kept.push(self.alerts[i].clone());
                assert(alert_views(kept@) =~= before.push(self.alerts@[i as int]@));
            }
            i = i + 1;
        }
        assert(self@.alerts.take(i as int) =~= self@.alerts);
        self.alerts = kept;
    }

    /// Takes in the outcome of a check at `now`. Returns the alert that it raises.
    pub fn record_check(&mut self, watch_id: u32, status: WatchStatus, now: u64, epoch: u64) -> (r:
        Option<Alert>)
        ensures
            final(self)@ == checked(old(self)@, watch_id, status@, now, epoch),
            match raised(old(self)@, watch_id, status@, epoch) {
                Some(a) => r matches Some(b) && b@ == a,
                None => r.is_none(),
            },
    {
        let i = self.watch_slot(watch_id);
        if i >= self.watches.len() {
            return None;
        }
        let ghost sv = status@;
        let ghost m = old(self)@;
        assert(m.watches[i as int] == self.watches@[i as int]@);
        let was_ok: bool = self.watches[i].last_status.ok;
        let level = self.watches[i].alert_level;
        let max: usize = self.max_history;
        let is_ok: bool = status.ok;
        let message = status.message.clone();
        self.watches[i].last_status = status.clone();
        self.watches[i].last_check = Some(now);
        let ghost h = status_views(self.watches@[i as int].history@);
        self.watches[i].history.push(status);
        assert(status_views(self.watches@[i as int].history@) =~= h.push(sv));
        if self.watches[i].history.len() > max {
            let ghost longer = self.watches@[i as int].history@;
            let _ = self.watches[i].history.remove(0);
            assert(status_views(self.watches@[i as int].history@) =~= h.push(sv).skip(1));
        }
        assert(self@.watches =~= checked(m, watch_id, sv, now, epoch).watches);
        if was_ok && !is_ok {
            let id = self.next_id();
            let alert = Alert {
                id,
                watch_id,
                level,
                message,
                timestamp: epoch,
                acknowledged: false,
            };
            let copy = alert.clone();
            self.alerts.push(alert);
            assert(self@.alerts =~= checked(m, watch_id, sv, now, epoch).alerts);
            return Some(copy);
        }
        if !was_ok && is_ok {
            self.drop_alerts(watch_id);
        }
        None
    }

    /// Acknowledges an alert. False if there is none.
    pub fn ack_alert(&mut self, alert_id: u32) -> (found: bool)
        ensures
            found == (alert_from(old(self)@.alerts, alert_id, 0) < old(self)@.alerts.len()),
            final(self)@ == acknowledged(old(self)@, alert_id),
    {
        let mut i: usize = 0;
        while i < self.alerts.len() && self.alerts[i].id != alert_id
            invariant
                i <= self.alerts@.len(),
                self == old(self),
                alert_from(self@.alerts, alert_id, i as int) == alert_from(
                    self@.alerts,
                    alert_id,
                    0,
                ),
            decreases self.alerts@.len() - i,
        {
            i = i + 1;
        }
        if i >= self.alerts.len() {
            return false;
        }
        assert(self@.alerts[i as int] == self.alerts@[i as int]@);
        self.alerts[i].acknowledged = true;
        let ghost want = acknowledged(old(self)@, alert_id);
        assert(self@.alerts =~= want.alerts);
        let copy = self.alerts[i].clone();
        let ghost h = self@.alert_history;
        self.alert_history.push(copy);
        assert(self@.alert_history =~= h.push(copy@));
        if self.alert_history.len() > 100 {
            let ghost longer = self@.alert_history;
            let _ = self.alert_history.remove(0);
            assert(self@.alert_history =~= longer.skip(1));
        }
        true
    }

    /// The watches that are to be checked at `now`.
    pub fn due_watches(&self, now: u64) -> (r: Vec<u32>)
        ensures
            r@ == due_ids(self@.watches, now),
    {
        let mut r: Vec<u32> = Vec::new();
        let mut i: usize = 0;
        while i < self.watches.len()
            invariant
                i <= self.watches@.len(),
                r@ == due_ids(self@.watches.take(i as int), now),
            decreases self.watches@.len() - i,
        {
            assert(self@.watches.take(i + 1).drop_last() =~= self@.watches.take(i as int));
            let w = &self.watches[i];
            let due: bool = match w.last_check {
                None => true,
                Some(t) => now >= t && (now - t) as u128 >= w.interval_secs as u128 * 1000 || (now
                    < t && w.interval_secs == 0),
            };
            if due {
                r.push(w.id);
            }
            i = i + 1;
        }
        assert(self@.watches.take(i as int) =~= self@.watches);
        r
    }

    /// Adds a schedule: its identity.
    pub fn add_schedule(&mut self, code: String, interval_secs: u64) -> (id: u32)
        ensures
            id == old(self)@.next_id,
            final(self)@ == with_sched(old(self)@, code@, interval_secs),
    {
        let id = self.next_id();
        let x = SchedEntry {
            id,
            code,
            interval_secs,
            last_run: None,
            one_shot: false,
            run_at: None,
        };
        let ghost xv = x@;
        let i = self.sched_slot(id);
        if i < self.schedules.len() {
            self.schedules.set(i, x);
        } else {
            self.schedules.push(x);
        }
        assert(self@.schedules =~= put_sched(old(self)@.schedules, xv));
        id
    }

    /// Removes a schedule. False if there is none.
    pub fn remove_schedule(&mut self, id: u32) -> (found: bool)
        ensures
            found == has_sched(old(self)@.schedules, id),
            final(self)@ == without_sched(old(self)@, id),
    {
        let i = self.sched_slot(id);
        if i < self.schedules.len() {
            let _ = self.schedules.remove(i);
            assert(self@.schedules =~= old(self)@.schedules.remove(i as int));
            true
        } else {
            false
        }
    }

    /// Hands out the schedules that are to be run at `now`, with their code.
    pub fn due_schedules(&mut self, now: u64, epoch: u64) -> (r: Vec<(u32, String)>)
        ensures
            code_views(r@) == due_codes(old(self)@.schedules, now, epoch),
            final(self)@ == (MonV {
                schedules: run_scheds(old(self)@.schedules, now, epoch),
                ..old(self)@
            }),
    {
        let mut r: Vec<(u32, String)> = Vec::new();
        let mut kept: Vec<SchedEntry> = Vec::new();
        let ghost all = self@.schedules;
        let mut i: usize = 0;
        assert(code_views(r@) =~= due_codes(all.take(0), now, epoch));
        assert(sched_views(kept@) =~= run_scheds(all.take(0), now, epoch));
        while i < self.schedules.len()
            invariant
                i <= self.schedules@.len(),
                self == old(self),
                all == self@.schedules,
                code_views(r@) == due_codes(all.take(i as int), now, epoch),
                sched_views(kept@) == run_scheds(all.take(i as int), now, epoch),
            decreases self.schedules@.len() - i,
        {
            assert(all.take(i + 1).drop_last() =~= all.take(i as int));
            let x = &self.schedules[i];
            let due: bool = match x.last_run {
                None => match x.run_at {
                    Some(a) => epoch >= a,
                    None => true,
                },
                Some(t) => now >= t && (now - t) as u128 >= x.interval_secs as u128 * 1000 || (now
                    < t && x.interval_secs == 0),
            };
            let ghost codes = code_views(r@);
            let ghost before = sched_views(kept@);
            let copy = SchedEntry {
                id: x.id,
                code: x.code.clone(),
                interval_secs: x.interval_secs,
                last_run: if due {
                    Some(now)
                } else {
                    x.last_run
                },
                one_shot: x.one_shot,
                run_at: x.run_at,
            };
            if due {
                r.push((x.id, x.code.clone()));
                assert(code_views(r@) =~= codes.push((x.id, x.code@)));
            }
            if !(due && x.one_shot) {
                let ghost cv = copy@;
                kept.push(copy);
                assert(sched_views(kept@) =~= before.push(cv));
            }
            i = i + 1;
        }
        assert(all.take(i as int) =~= all);
        self.schedules = kept;
        r
    }

    /// What is handed out by a watch's history: the number of good outcomes and of all. `None` if
    /// there is no such watch.
    pub fn uptime_counts(&self, watch_id: u32) -> (r: Option<(usize, usize)>)
        ensures
            match r {
                Some(c) => has_watch(self@.watches, watch_id) && c.0 == good(
                    self@.watches[watch_at(self@.watches, watch_id)].history,
                ) && c.1 == self@.watches[watch_at(self@.watches, watch_id)].history.len() && c.0
                    <= c.1,
                None => !has_watch(self@.watches, watch_id),
            },
    {
        let i = self.watch_slot(watch_id);
        if i >= self.watches.len() {
            return None;
        }
        assert(self@.watches[i as int] == self.watches@[i as int]@);
        let h = &self.watches[i].history;
        let ghost hv = status_views(h@);
        let mut n: usize = 0;
        let mut k: usize = 0;
        while k < h.len()
            invariant
                n <= k <= h@.len(),
                hv == status_views(h@),
                n == good(hv.take(k as int)),
            decreases h@.len() - k,
        {
            assert(hv.take(k + 1).drop_last() =~= hv.take(k as int));
            if h[k].ok {
                n = n + 1;
            }
            k = k + 1;
        }
        assert(hv.take(k as int) =~= hv);
        Some((n, h.len()))
    }
}

/// The number of good outcomes.
pub open spec fn good(s: Seq<StatusV>) -> nat
    decreases s.len(),
{
    if s.len() == 0 {
        0
    } else {
        good(s.drop_last()) + (if s.last().ok {
            1nat
        } else {
            0
        })
    }
}

// ---------------------------------------------------------------------------
// Reports
// ---------------------------------------------------------------------------

/// The identities with their sign changed, so that a descending order is one by identity.
pub open spec fn watch_ranks(s: Seq<WatchV>) -> Seq<int> {
    Seq::new(s.len(), |i: int| -(s[i].id as int))
}

/// The identities with their sign changed, so that a descending order is one by identity.
pub open spec fn sched_ranks(s: Seq<SchedV>) -> Seq<int> {
    Seq::new(s.len(), |i: int| -(s[i].id as int))
}

/// How long ago a watch was checked.
pub open spec fn age_text(last: Option<u64>, now: u64) -> Seq<char> {
    match last {
        Some(t) => text::dec(spawn::seconds_between(t, now) as nat) + "s ago"@,
        None => "never"@,
    }
}

/// The line of a watch.
pub open spec fn watch_line(w: WatchV, now: u64) -> Seq<char> {
    "  #"@ + text::dec(w.id as nat) + " ["@ + (if w.last_status.ok {
        "UP"@
    } else {
        "DOWN"@
    }) + "] "@ + kind_text(w.kind) + " ("@ + text::dec(w.last_status.response_ms as nat) + "ms) "@
        + w.last_status.message + " checked "@ + age_text(w.last_check, now) + "\n"@
}

/// The lines of the watches at these positions.
pub open spec fn watch_lines(s: Seq<WatchV>, ord: Seq<int>, now: u64) -> Seq<char>
    decreases ord.len(),
{
    if ord.len() == 0 {
        Seq::empty()
    } else {
        watch_lines(s, ord.drop_last(), now) + watch_line(s[ord.last()], now)
    }
}

/// The list of watches, by identity.
pub open spec fn watches_text(m: MonV, now: u64) -> Seq<char> {
    if m.watches.len() == 0 {
        "  (no watches)\n"@
    } else {
        watch_lines(
            m.watches,
            order::order_desc(watch_ranks(m.watches), m.watches.len() as int),
            now,
        )
    }
}

/// The line of the outcome at position `i`.
pub open spec fn log_line(h: Seq<StatusV>, i: int) -> Seq<char> {
    "    "@ + text::dec(i as nat) + ": "@ + (if h[i].ok {
        "OK"@
    } else {
        "FAIL"@
    }) + " "@ + text::dec(h[i].response_ms as nat) + "ms "@ + h[i].message + "\n"@
}

/// The lines of the last `n` outcomes, the latest first.
pub open spec fn log_lines(h: Seq<StatusV>, n: int) -> Seq<char>
    decreases n,
{
    if n <= 0 {
        Seq::empty()
    } else {
        log_lines(h, n - 1) + log_line(h, h.len() - n)
    }
}

/// `n`, or twenty if it is more.
pub open spec fn at_most_twenty(n: nat) -> int {
    if n < 20 {
        n as int
    } else {
        20
    }
}

/// The history of a watch: its last twenty outcomes.
pub open spec fn watch_log_text(m: MonV, id: u32) -> Seq<char> {
    if has_watch(m.watches, id) {
        let h = m.watches[watch_at(m.watches, id)].history;
        if h.len() == 0 {
            "  watch #"@ + text::dec(id as nat) + ": no history\n"@
        } else {
            "  watch #"@ + text::dec(id as nat) + " history ("@ + text::dec(h.len()) + " entries):\n"@
                + log_lines(h, at_most_twenty(h.len()))
        }
    } else {
        "  watch #"@ + text::dec(id as nat) + " not found\n"@
    }
}

/// The line of an alert.
pub open spec fn alert_line(a: AlertV, mark: bool) -> Seq<char> {
    "  #"@ + text::dec(a.id as nat) + " ["@ + level_label(a.level) + "]"@ + (if mark && a.acknowledged {
        " [ACK]"@
    } else {
        ""@
    }) + " watch #"@ + text::dec(a.watch_id as nat) + ": "@ + a.message + "\n"@
}

/// The lines of alerts.
pub open spec fn alert_lines(s: Seq<AlertV>) -> Seq<char>
    decreases s.len(),
{
    if s.len() == 0 {
        Seq::empty()
    } else {
        alert_lines(s.drop_last()) + alert_line(s.last(), true)
    }
}

/// The list of alerts.
pub open spec fn alerts_text(m: MonV) -> Seq<char> {
    if m.alerts.len() == 0 {
        "  (no active alerts)\n"@
    } else {
        alert_lines(m.alerts)
    }
}

/// The lines of the last `n` past alerts, the latest first.
pub open spec fn past_lines(s: Seq<AlertV>, n: int) -> Seq<char>
    decreases n,
{
    if n <= 0 {
        Seq::empty()
    } else {
        past_lines(s, n - 1) + alert_line(s[s.len() - n], false)
    }
}

/// The last twenty past alerts.
pub open spec fn alert_history_text(m: MonV) -> Seq<char> {
    if m.alert_history.len() == 0 {
        "  (no alert history)\n"@
    } else {
        past_lines(m.alert_history, at_most_twenty(m.alert_history.len()))
    }
}

/// When a schedule runs next.
pub open spec fn next_run_text(x: SchedV, now: u64) -> Seq<char> {
    match x.last_run {
        Some(t) => "in "@ + text::dec(
            (if spawn::seconds_between(t, now) < x.interval_secs {
                x.interval_secs - spawn::seconds_between(t, now)
            } else {
                0
            }) as nat,
        ) + "s"@,
        None => "now"@,
    }
}

/// The line of a schedule.
pub open spec fn sched_line(x: SchedV, now: u64) -> Seq<char> {
    "  #"@ + text::dec(x.id as nat) + " every "@ + text::dec(x.interval_secs as nat) + "s next="@
        + next_run_text(x, now) + ": "@ + text::clip(x.code, 40) + "\n"@
}

/// The lines of the schedules at these positions.
pub open spec fn sched_lines(s: Seq<SchedV>, ord: Seq<int>, now: u64) -> Seq<char>
    decreases ord.len(),
{
    if ord.len() == 0 {
        Seq::empty()
    } else {
        sched_lines(s, ord.drop_last(), now) + sched_line(s[ord.last()], now)
    }
}

/// The list of schedules, by identity.
pub open spec fn schedules_text(m: MonV, now: u64) -> Seq<char> {
    if m.schedules.len() == 0 {
        "  (no scheduled tasks)\n"@
    } else {
        sched_lines(
            m.schedules,
            order::order_desc(sched_ranks(m.schedules), m.schedules.len() as int),
            now,
        )
    }
}

/// The last eight outcomes.
pub open spec fn recent(h: Seq<StatusV>) -> Seq<StatusV> {
    if h.len() <= 8 {
        h
    } else {
        h.skip(h.len() - 8)
    }
}

/// The longest response time, at least 1.
pub open spec fn peak(s: Seq<StatusV>) -> int
    decreases s.len(),
{
    if s.len() == 0 {
        1
    } else {
        let p = peak(s.drop_last());
        if s.last().response_ms > p {
            s.last().response_ms as int
        } else {
            p
        }
    }
}

/// The bar of height `i`, from 0 to 7.
pub open spec fn bar(i: int) -> char {
    if i <= 0 {
        '▁'
    } else if i == 1 {
        '▂'
    } else if i == 2 {
        '▃'
    } else if i == 3 {
        '▄'
    } else if i == 4 {
        '▅'
    } else if i == 5 {
        '▆'
    } else if i == 6 {
        '▇'
    } else {
        '█'
    }
}

/// The last response times as bars, the longest the highest.
pub open spec fn spark(h: Seq<StatusV>) -> Seq<char> {
    if h.len() == 0 {
        "        "@
    } else {
        Seq::new(
            recent(h).len(),
            |i: int| bar(recent(h)[i].response_ms * 7 / peak(recent(h))),
        )
    }
}

/// The line of a watch on the dashboard.
pub open spec fn dash_line(w: WatchV) -> Seq<char> {
    "  #"@ + text::dec(w.id as nat) + " ["@ + (if w.last_status.ok {
        "UP  "@
    } else {
        "DOWN"@
    }) + "] "@ + spark(w.history) + " "@ + text::dec(w.last_status.response_ms as nat) + " "@ + text::clip(
        kind_name(w.kind),
        30,
    ) + "\n"@
}

/// The lines of the watches at these positions on the dashboard.
pub open spec fn dash_lines(s: Seq<WatchV>, ord: Seq<int>) -> Seq<char>
    decreases ord.len(),
{
    if ord.len() == 0 {
        Seq::empty()
    } else {
        dash_lines(s, ord.drop_last()) + dash_line(s[ord.last()])
    }
}

/// The number of alerts that have not been acknowledged.
pub open spec fn open_alerts(s: Seq<AlertV>) -> nat
    decreases s.len(),
{
    if s.len() == 0 {
        0
    } else {
        open_alerts(s.drop_last()) + (if s.last().acknowledged {
            0nat
        } else {
            1
        })
    }
}

/// The lines of the alerts that have not been acknowledged.
pub open spec fn open_lines(s: Seq<AlertV>) -> Seq<char>
    decreases s.len(),
{
    if s.len() == 0 {
        Seq::empty()
    } else if s.last().acknowledged {
        open_lines(s.drop_last())
    } else {
        open_lines(s.drop_last()) + ("  ["@ + level_label(s.last().level) + "] watch #"@ + text::dec(
            s.last().watch_id as nat,
        ) + ": "@ + s.last().message + "\n"@)
    }
}

/// The dashboard.
pub open spec fn dashboard_text(m: MonV, peers: nat, fitness: int, goals: Seq<char>) -> Seq<char> {
    "╔══════════════════════════════════════╗\n"@
        + "║         UNIT OPS DASHBOARD           ║\n"@
        + "╚══════════════════════════════════════╝\n"@
        + "─── watches ───\n"@ + (if m.watches.len() == 0 {
        "  (none)\n"@
    } else {
        dash_lines(m.watches, order::order_desc(watch_ranks(m.watches), m.watches.len() as int))
    }) + "─── alerts ───\n"@ + (if open_alerts(m.alerts) == 0 {
        "  all clear\n"@
    } else {
        open_lines(m.alerts)
    }) + "─── mesh ───\n"@ + "  peers: "@ + text::dec(peers) + "  fitness: "@ + text::dec_int(fitness)
        + "\n"@ + (if goals.len() == 0 {
        ""@
    } else {
        "─── goals ───\n"@ + goals
    })
}

/// The number of watches that are well.
pub open spec fn healthy(s: Seq<WatchV>) -> nat
    decreases s.len(),
{
    if s.len() == 0 {
        0
    } else {
        healthy(s.drop_last()) + (if s.last().last_status.ok {
            1nat
        } else {
            0
        })
    }
}

/// `x`, kept between `low` and `high`.
pub open spec fn clamp(x: int, low: int, high: int) -> int {
    if x < low {
        low
    } else if x > high {
        high
    } else {
        x
    }
}

/// The health of a unit, from 0 to 100: the share of well watches, less for open alerts, more for
/// peers and fitness.
pub open spec fn health(m: MonV, peers: int, fitness: int) -> int {
    let share = if m.watches.len() > 0 {
        (healthy(m.watches) as int * 100) / (m.watches.len() as int)
    } else {
        100
    };
    clamp(
        share - clamp(open_alerts(m.alerts) as int * 20, 0, 50) + clamp(peers * 5, 0, 20) + (if fitness
            < 0 {
            0
        } else {
            clamp(fitness / 10, 0, 10)
        }),
        0,
        100,
    )
}

fn sparkline(history: &[WatchStatus]) -> (out: String)
    ensures
        out@ == spark(status_views(history@)),
{
    if history.len() == 0 {
        return text("        ");
    }
    let ghost hv = status_views(history@);
    let start: usize = if history.len() <= 8 {
        0
    } else {
        history.len() - 8
    };
    let ghost rec = recent(hv);
    assert(rec =~= hv.skip(start as int));
    let mut max: u64 = 1;
    let mut i: usize = start;
    while i < history.len()
        invariant
            start <= i <= history@.len(),
            hv == status_views(history@),
            rec == hv.skip(start as int),
            max >= 1,
            max == peak(rec.take(i - start)),
            forall|j: int| start <= j < i ==> (#[trigger] hv[j]).response_ms <= max,
        decreases history@.len() - i,
    {
        assert(rec.take(i - start + 1).drop_last() =~= rec.take(i - start));
        assert(rec[i - start] == hv[i as int]);
        if history[i].response_ms > max {
            max = history[i].response_ms;
        }
        i = i + 1;
    }
    assert(rec.take(i - start) =~= rec);
    let mut out = String::new();
    let mut k: usize = start;
    while k < history.len()
        invariant
            start <= k <= history@.len(),
            hv == status_views(history@),
            rec == hv.skip(start as int),
            max >= 1,
            max == peak(rec),
            out@.len() == k - start,
            forall|j: int|
                0 <= j < k - start ==> #[trigger] out@[j] == bar(
                    rec[j].response_ms * 7 / peak(rec),
                ),
        decreases history@.len() - k,
    {
        let h: u128 = history[k].response_ms as u128 * 7 / max as u128;
        assert(rec[k - start] == history@[k as int]@);
        let c: char = if h == 0 {
            '▁'
        } else if h == 1 {
            '▂'
        } else if h == 2 {
            '▃'
        } else if h == 3 {
            '▄'
        } else if h == 4 {
            '▅'
        } else if h == 5 {
            '▆'
        } else if h == 6 {
            '▇'
        } else {
            '█'
        };
        out.push(c);
        k = k + 1;
    }
    assert(out@ =~= spark(hv));
    out
}

fn format_watch(w: &WatchEntry, now: u64) -> (out: String)
    ensures
        out@ == watch_line(w@, now),
{
    let mut out = text("  #");
    push_u64(&mut out, w.id as u64);
    out.append(" [");
    if w.last_status.ok {
        out.append("UP");
    } else {
        out.append("DOWN");
    }
    out.append("] ");
    let k = w.kind.describe();
    out.append(k.as_str());
    out.append(" (");
    push_u64(&mut out, w.last_status.response_ms);
    out.append("ms) ");
    out.append(w.last_status.message.as_str());
    out.append(" checked ");
    let mut age = String::new();
    match w.last_check {
        Some(t) => {
            push_u64(&mut age, seconds_since(t, now));
            age.append("s ago");
            assert(age@ =~= age_text(w.last_check, now));
        },
        None => {
            age = text("never");
        },
    }
    out.append(age.as_str());
    out.append("\n");
    out
}

fn format_sched(x: &SchedEntry, now: u64) -> (out: String)
    ensures
        out@ == sched_line(x@, now),
{
    let mut out = text("  #");
    push_u64(&mut out, x.id as u64);
    out.append(" every ");
    push_u64(&mut out, x.interval_secs);
    out.append("s next=");
    let next = match x.last_run {
        Some(t) => {
            let n = seconds_since(t, now);
            let mut s = text("in ");
            push_u64(
                &mut s,
                if n < x.interval_secs {
                    x.interval_secs - n
                } else {
                    0
                },
            );
            s.append("s");
            s
        },
        None => text("now"),
    };
    out.append(next.as_str());
    out.append(": ");
    let c = take_chars(x.code.as_str(), 40);
    out.append(c.as_str());
    out.append("\n");
    out
}

fn format_dash_line(w: &WatchEntry) -> (out: String)
    ensures
        out@ == dash_line(w@),
{
    let mut out = text("  #");
    push_u64(&mut out, w.id as u64);
    out.append(" [");
    if w.last_status.ok {
        out.append("UP  ");
    } else {
        out.append("DOWN");
    }
    out.append("] ");
    let s = sparkline(&w.history);
    out.append(s.as_str());
    out.append(" ");
    push_u64(&mut out, w.last_status.response_ms);
    out.append(" ");
    let n = take_chars(w.kind.name(), 30);
    out.append(n.as_str());
    out.append("\n");
    out
}

fn format_alert(a: &Alert, mark: bool) -> (out: String)
    ensures
        out@ == alert_line(a@, mark),
{
    let mut out = text("  #");
    push_u64(&mut out, a.id as u64);
    out.append(" [");
    out.append(a.level.label());
    out.append("]");
    if mark && a.acknowledged {
        out.append(" [ACK]");
    } else {
        out.append("");
    }
    out.append(" watch #");
    push_u64(&mut out, a.watch_id as u64);
    out.append(": ");
    out.append(a.message.as_str());
    out.append("\n");
    out
}

impl MonitorState {
    fn watch_order(&self) -> (r: Vec<usize>)
        ensures
            order::positions(r@) == order::order_desc(watch_ranks(self@.watches), self@.watches.len() as int),
            forall|j: int| 0 <= j < r@.len() ==> (#[trigger] r@[j]) < self.watches@.len(),
    {
        let mut keys: Vec<i128> = Vec::new();
        let mut i: usize = 0;
        while i < self.watches.len()
            invariant
                i <= self.watches@.len(),
                order::ints(keys@) == watch_ranks(self@.watches).take(i as int),
            decreases self.watches@.len() - i,
        {
            let ghost before = order::ints(keys@);
            keys.push(-(self.watches[i].id as i128));
            i = i + 1;
            assert(order::ints(keys@) =~= before.push(-(self.watches@[i - 1].id as int)));
            assert(order::ints(keys@) =~= watch_ranks(self@.watches).take(i as int));
        }
        assert(order::ints(keys@) =~= watch_ranks(self@.watches));
        assert(keys@.len() == order::ints(keys@).len());
        sort_desc(&keys)
    }

    /// The list of watches, by identity, at `now`.
    pub fn format_watches(&self, now: u64) -> (out: String)
        ensures
            out@ == watches_text(self@, now),
    {
        if self.watches.len() == 0 {
            return text("  (no watches)\n");
        }
        let ord = self.watch_order();
        let ghost pos = order::positions(ord@);
        let mut out = String::new();
        let mut k: usize = 0;
        assert(out@ =~= watch_lines(self@.watches, pos.take(0), now));
        while k < ord.len()
            invariant
                k <= ord@.len(),
                pos == order::positions(ord@),
                forall|j: int| 0 <= j < ord@.len() ==> (#[trigger] ord@[j]) < self.watches@.len(),
                out@ == watch_lines(self@.watches, pos.take(k as int), now),
            decreases ord@.len() - k,
        {
            assert(pos.take(k + 1).drop_last() =~= pos.take(k as int));
            let n: usize = ord[k];
            assert(self@.watches[n as int] == self.watches@[n as int]@);
            let line = format_watch(&self.watches[n], now);
            out.append(line.as_str());
            k = k + 1;
        }
        assert(pos.take(k as int) =~= pos);
        out
    }

    /// The history of a watch: its last twenty outcomes, the latest first.
    pub fn format_watch_log(&self, watch_id: u32) -> (out: String)
        ensures
            out@ == watch_log_text(self@, watch_id),
    {
        let i = self.watch_slot(watch_id);
        let mut out = text("  watch #");
        push_u64(&mut out, watch_id as u64);
        if i >= self.watches.len() {
            out.append(" not found\n");
            return out;
        }
        assert(self@.watches[i as int] == self.watches@[i as int]@);
        let h = &self.watches[i].history;
        let ghost hv = status_views(h@);
        if h.len() == 0 {
            out.append(": no history\n");
            return out;
        }
        out.append(" history (");
        push_usize(&mut out, h.len());
        out.append(" entries):\n");
        let n: usize = if h.len() < 20 {
            h.len()
        } else {
            20
        };
        let mut rows = String::new();
        let mut k: usize = 0;
        assert(rows@ =~= log_lines(hv, 0));
        while k < n
            invariant
                k <= n <= h@.len(),
                hv == status_views(h@),
                rows@ == log_lines(hv, k as int),
            decreases n - k,
        {
            let p: usize = h.len() - 1 - k;
            let s = &h[p];
            let mut row = text("    ");
            push_usize(&mut row, p);
            row.append(": ");
            if s.ok {
                row.append("OK");
            } else {
                row.append("FAIL");
            }
            row.append(" ");
            push_u64(&mut row, s.response_ms);
            row.append("ms ");
            row.append(s.message.as_str());
            row.append("\n");
            assert(row@ == log_line(hv, p as int));
            rows.append(row.as_str());
            k = k + 1;
        }
        out.append(rows.as_str());
        out
    }

    /// The list of alerts.
    pub fn format_alerts(&self) -> (out: String)
        ensures
            out@ == alerts_text(self@),
    {
        if self.alerts.len() == 0 {
            return text("  (no active alerts)\n");
        }
        let mut out = String::new();
        let mut k: usize = 0;
        assert(out@ =~= alert_lines(self@.alerts.take(0)));
        while k < self.alerts.len()
            invariant
                k <= self.alerts@.len(),
                out@ == alert_lines(self@.alerts.take(k as int)),
            decreases self.alerts@.len() - k,
        {
            assert(self@.alerts.take(k + 1).drop_last() =~= self@.alerts.take(k as int));
            let line = format_alert(&self.alerts[k], true);
            out.append(line.as_str());
            k = k + 1;
        }
        assert(self@.alerts.take(k as int) =~= self@.alerts);
        out
    }

    /// The last twenty past alerts, the latest first.
    pub fn format_alert_history(&self) -> (out: String)
        ensures
            out@ == alert_history_text(self@),
    {
        let h = &self.alert_history;
        let ghost hv = self@.alert_history;
        if h.len() == 0 {
            return text("  (no alert history)\n");
        }
        let n: usize = if h.len() < 20 {
            h.len()
        } else {
            20
        };
        let mut out = String::new();
        let mut k: usize = 0;
        assert(out@ =~= past_lines(hv, 0));
        while k < n
            invariant
                k <= n <= h@.len(),
                hv == alert_views(h@),
                out@ == past_lines(hv, k as int),
            decreases n - k,
        {
            let p: usize = h.len() - 1 - k;
            assert(hv[p as int] == h@[p as int]@);
            let line = format_alert(&h[p], false);
            out.append(line.as_str());
            k = k + 1;
        }
        out
    }

    /// The list of schedules, by identity, at `now`.
    pub fn format_schedules(&self, now: u64) -> (out: String)
        ensures
            out@ == schedules_text(self@, now),
    {
        if self.schedules.len() == 0 {
            return text("  (no scheduled tasks)\n");
        }
        let mut keys: Vec<i128> = Vec::new();
        let mut i: usize = 0;
        while i < self.schedules.len()
            invariant
                i <= self.schedules@.len(),
                order::ints(keys@) == sched_ranks(self@.schedules).take(i as int),
            decreases self.schedules@.len() - i,
        {
            let ghost before = order::ints(keys@);
            keys.push(-(self.schedules[i].id as i128));
            i = i + 1;
            assert(order::ints(keys@) =~= before.push(-(self.schedules@[i - 1].id as int)));
            assert(order::ints(keys@) =~= sched_ranks(self@.schedules).take(i as int));
        }
        assert(order::ints(keys@) =~= sched_ranks(self@.schedules));
        assert(keys@.len() == order::ints(keys@).len());
        let ord = sort_desc(&keys);
        let ghost pos = order::positions(ord@);
        let mut out = String::new();
        let mut k: usize = 0;
        assert(out@ =~= sched_lines(self@.schedules, pos.take(0), now));
        while k < ord.len()
            invariant
                k <= ord@.len(),
                pos == order::positions(ord@),
                keys@.len() == self.schedules@.len(),
                forall|j: int| 0 <= j < ord@.len() ==> (#[trigger] ord@[j]) < keys@.len(),
                out@ == sched_lines(self@.schedules, pos.take(k as int), now),
            decreases ord@.len() - k,
        {
            assert(pos.take(k + 1).drop_last() =~= pos.take(k as int));
            let n: usize = ord[k];
            assert(self@.schedules[n as int] == self.schedules@[n as int]@);
            let line = format_sched(&self.schedules[n], now);
            out.append(line.as_str());
            k = k + 1;
        }
        assert(pos.take(k as int) =~= pos);
        out
    }

    fn count_open(&self) -> (n: usize)
        ensures
            n == open_alerts(self@.alerts),
            n <= self.alerts@.len(),
    {
        let mut n: usize = 0;
        let mut i: usize = 0;
        while i < self.alerts.len()
            invariant
                n <= i <= self.alerts@.len(),
                n == open_alerts(self@.alerts.take(i as int)),
            decreases self.alerts@.len() - i,
        {
            assert(self@.alerts.take(i + 1).drop_last() =~= self@.alerts.take(i as int));
            if !self.alerts[i].acknowledged {
                n = n + 1;
            }
            i = i + 1;
        }
        assert(self@.alerts.take(i as int) =~= self@.alerts);
        n
    }

    /// The dashboard: watches, open alerts, mesh and goals.
    pub fn format_dashboard(&self, peer_count: usize, fitness: i64, goal_summary: &str) -> (out:
        String)
        ensures
            out@ == dashboard_text(self@, peer_count as nat, fitness as int, goal_summary@),
    {
        let mut out = text("╔══════════════════════════════════════╗\n");
        out.append("║         UNIT OPS DASHBOARD           ║\n");
        out.append("╚══════════════════════════════════════╝\n");
        out.append("─── watches ───\n");
        if self.watches.len() == 0 {
            out.append("  (none)\n");
        } else {
            let ord = self.watch_order();
            let ghost pos = order::positions(ord@);
            let mut rows = String::new();
            let mut k: usize = 0;
            assert(rows@ =~= dash_lines(self@.watches, pos.take(0)));
            while k < ord.len()
                invariant
                    k <= ord@.len(),
                    pos == order::positions(ord@),
                    forall|j: int|
                        0 <= j < ord@.len() ==> (#[trigger] ord@[j]) < self.watches@.len(),
                    rows@ == dash_lines(self@.watches, pos.take(k as int)),
                decreases ord@.len() - k,
            {
                assert(pos.take(k + 1).drop_last() =~= pos.take(k as int));
                let n: usize = ord[k];
                assert(self@.watches[n as int] == self.watches@[n as int]@);
                let line = format_dash_line(&self.watches[n]);
                rows.append(line.as_str());
                k = k + 1;
            }
            assert(pos.take(k as int) =~= pos);
            out.append(rows.as_str());
        }
        out.append("─── alerts ───\n");
        if self.count_open() == 0 {
            out.append("  all clear\n");
        } else {
            let mut rows = String::new();
            let mut i: usize = 0;
            assert(rows@ =~= open_lines(self@.alerts.take(0)));
            while i < self.alerts.len()
                invariant
                    i <= self.alerts@.len(),
                    rows@ == open_lines(self@.alerts.take(i as int)),
                decreases self.alerts@.len() - i,
            {
                assert(self@.alerts.take(i + 1).drop_last() =~= self@.alerts.take(i as int));
                let a = &self.alerts[i];
                if !a.acknowledged {
                    let mut row = text("  [");
                    row.append(a.level.label());
                    row.append("] watch #");
                    push_u64(&mut row, a.watch_id as u64);
                    row.append(": ");
                    row.append(a.message.as_str());
                    row.append("\n");
                    rows.append(row.as_str());
                }
                i = i + 1;
            }
            assert(self@.alerts.take(i as int) =~= self@.alerts);
            out.append(rows.as_str());
        }
        out.append("─── mesh ───\n");
        out.append("  peers: ");
        push_usize(&mut out, peer_count);
        out.append("  fitness: ");
        push_i64(&mut out, fitness);
        out.append("\n");
        if goal_summary.is_empty() {
            out.append("");
        } else {
            let mut g = text("─── goals ───\n");
            g.append(goal_summary);
            out.append(g.as_str());
        }
        out
    }

    /// The health of the unit, from 0 to 100.
    pub fn health_score(&self, peer_count: usize, fitness: i64) -> (h: i64)
        ensures
            h == health(self@, peer_count as int, fitness as int),
            0 <= h <= 100,
    {
        let mut well: usize = 0;
        let mut i: usize = 0;
        while i < self.watches.len()
            invariant
                well <= i <= self.watches@.len(),
                well == healthy(self@.watches.take(i as int)),
            decreases self.watches@.len() - i,
        {
            assert(self@.watches.take(i + 1).drop_last() =~= self@.watches.take(i as int));
            if self.watches[i].last_status.ok {
                well = well + 1;
            }
            i = i + 1;
        }
        assert(self@.watches.take(i as int) =~= self@.watches);
        let share: i128 = if self.watches.len() > 0 {
            (well as i128 * 100) / (self.watches.len() as i128)
        } else {
            100
        };
        proof {
            if self.watches@.len() > 0 {
                let (a, b) = (well as int, self.watches@.len() as int);
                assert(0 <= (a * 100) / b <= 100) by (nonlinear_arith)
                    requires
                        0 <= a <= b,
                        b > 0,
                ;
            }
        }
        let alerts: i128 = self.count_open() as i128 * 20;
        let penalty: i128 = if alerts > 50 {
            50
        } else {
            alerts
        };
        let peers: i128 = peer_count as i128 * 5;
        let bonus: i128 = if peers > 20 {
            20
        } else {
            peers
        };
        let fit: i128 = if fitness < 0 {
            0
        } else {
            let f: i128 = fitness as i128 / 10;
            if f > 10 {
                10
            } else {
                f
            }
        };
        let total: i128 = share - penalty + bonus + fit;
        if total < 0 {
            0
        } else if total > 100 {
            100
        } else {
            total as i64
        }
    }
}

} // verus!
