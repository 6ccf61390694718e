//! Checks of watches, alert handlers and the healing cycle.

use crate::features::fitness::FitV;
use crate::features::monitor;
use crate::features::monitor_laws;
use crate::features::monitor::{AlertV, KindV, MonV, MonitorState, StatusV, WatchKind, WatchStatus};
use crate::text;
use crate::text::{push_i64, push_u64, text};
use crate::vm::base;
use crate::vm::host;
use crate::vm::net;
use crate::vm::ops;
use crate::vm::state;
use crate::vm::state::{
    AfterChecks, Frame, FrameV, Job, Reply, ReplyV, Request, RequestV, Time, VmV, VM,
};
use vstd::prelude::*;

verus! {

/// The bonus for an alert handler that has run.
pub const HANDLER_BONUS: i64 = 15;

// ---------------------------------------------------------------------------
// Handlers
// ---------------------------------------------------------------------------

/// The handler of a watch, if there is one.
pub open spec fn handler_of(m: MonV, id: u32) -> Option<Seq<char>> {
    if monitor::has_watch(m.watches, id) {
        m.watches[monitor::watch_at(m.watches, id)].alert_handler
    } else {
        None
    }
}

/// The handlers of the first alerts that nobody has acknowledged, with the alert if it is to be
/// told.
pub open spec fn handlers(m: MonV, s: Seq<AlertV>, told: bool) -> Seq<(Option<u32>, Seq<char>)>
    decreases s.len(),
{
    if s.len() == 0 {
        Seq::empty()
    } else {
        let before = handlers(m, s.drop_last(), told);
        let a = s.last();
        if a.acknowledged {
            before
        } else {
            match handler_of(m, a.watch_id) {
                Some(code) => before.push(
                    (
                        if told {
                            Some(a.id)
                        } else {
                            None
                        },
                        code,
                    ),
                ),
                None => before,
            }
        }
    }
}

/// The machine about to run the handlers of open alerts.
#[verifier::opaque]
pub open spec fn handling(v: VmV, heal: bool) -> VmV {
    base::framed(
        v,
        FrameV::Jobs { jobs: handlers(v.monitor, v.monitor.alerts, heal), next: 0, heal },
    )
}

/// RUN-HANDLERS ( -- )
#[verifier::opaque]
pub open spec fn p_run_handlers(v: VmV) -> VmV {
    handling(v, false)
}

/// The machine with one more line of a row of lines begun, or at their end.
#[verifier::opaque]
pub open spec fn job_begun(
    v: VmV,
    jobs: Seq<(Option<u32>, Seq<char>)>,
    next: usize,
    heal: bool,
) -> VmV {
    if next < jobs.len() {
        let v = base::framed(v, FrameV::Jobs { jobs, next: (next + 1) as usize, heal });
        match jobs[next as int].0 {
            Some(id) => base::lined(
                base::emit(v, "  running handler for alert #"@ + text::dec(id as nat) + "\n"@),
                jobs[next as int].1,
            ),
            None => base::lined(v, jobs[next as int].1),
        }
    } else if heal {
        base::emit(v, "--- heal done ---\n"@)
    } else {
        v
    }
}

impl VM {
    fn handler_of(m: &MonitorState, id: u32) -> (r: Option<String>)
        ensures
            text::opt_text(r) == handler_of(m@, id),
    {
        let i = m.watch_slot(id);
        if i < m.watches.len() {
            assert(m@.watches[i as int] == m.watches@[i as int]@);
            match &m.watches[i].alert_handler {
                Some(code) => Some(code.clone()),
                None => None,
            }
        } else {
            None
        }
    }

    fn collect_handlers(m: &MonitorState, told: bool) -> (jobs: Vec<Job>)
        ensures
            state::job_views(jobs@) == handlers(m@, m@.alerts, told),
    {
        let mut jobs: Vec<Job> = Vec::new();
        let ghost s = m@.alerts;
        let mut i: usize = 0;
        assert(state::job_views(jobs@) =~= handlers(m@, s.take(0), told));
        while i < m.alerts.len()
            invariant
                i <= m.alerts@.len(),
                s == m@.alerts,
                state::job_views(jobs@) == handlers(m@, s.take(i as int), told),
            decreases m.alerts@.len() - i,
        {
            assert(s.take(i + 1).drop_last() =~= s.take(i as int));
            assert(s[i as int] == m.alerts@[i as int]@);
            let ghost before = state::job_views(jobs@);
            if !m.alerts[i].acknowledged {
                if let Some(code) = VM::handler_of(m, m.alerts[i].watch_id) {
                    let alert = if told {
                        Some(m.alerts[i].id)
                    } else {
                        None
                    };
                    let job = Job { alert, code };
                    let ghost j = job@;
                    jobs.push(job);
                    assert(state::job_views(jobs@) =~= before.push(j));
                }
            }
            i = i + 1;
        }
        assert(s.take(i as int) =~= s);
        jobs
    }

    fn begin_handlers(&mut self, heal: bool)
        ensures
            final(self)@ == handling(old(self)@, heal),
    {
        reveal(handling);
        let jobs = VM::collect_handlers(&self.monitor, heal);
        self.enter(Frame::Jobs { jobs, next: 0, heal });
    }

    pub(crate) fn prim_run_handlers(&mut self)
        ensures
            final(self)@ == p_run_handlers(old(self)@),
    {
        reveal(p_run_handlers);
        self.begin_handlers(false);
    }

    pub(crate) fn step_jobs(&mut self, jobs: Vec<Job>, next: usize, heal: bool)
        ensures
            final(self)@ == job_begun(old(self)@, state::job_views(jobs@), next, heal),
    {
        reveal(job_begun);
        if next < jobs.len() {
            let alert = jobs[next].alert;
            let code = jobs[next].code.clone();
            assert(state::job_views(jobs@)[next as int] == (alert, code@));
            self.enter(Frame::Jobs { jobs, next: next + 1, heal });
            if let Some(id) = alert {
                self.say_number("  running handler for alert #", id as u64, "\n");
            }
            self.begin_line(code.as_str());
        } else if heal {
            self.emit_str("--- heal done ---\n");
        }
    }
}

// ---------------------------------------------------------------------------
// Checks
// ---------------------------------------------------------------------------

/// CHECK-WATCHES ( -- )
#[verifier::opaque]
pub open spec fn p_check_watches(v: VmV, t: Time) -> VmV {
    base::framed(
        v,
        FrameV::Checks {
            ids: monitor::due_ids(v.monitor.watches, t.now),
            next: 0,
            after: AfterChecks::Nothing,
        },
    )
}

/// HEAL ( -- )
#[verifier::opaque]
pub open spec fn p_heal(v: VmV, t: Time) -> VmV {
    let ids = monitor::due_ids(v.monitor.watches, t.now);
    let v = base::emit(v, "--- heal cycle ---\n"@);
    let v = if ids.len() == 0 {
        base::emit(v, "  no watches due\n"@)
    } else {
        v
    };
    base::framed(v, FrameV::Checks { ids, next: 0, after: AfterChecks::Heal })
}

/// The watches and the schedules that are due, between two lines of input.
#[verifier::opaque]
pub open spec fn monitor_ticked(v: VmV, t: Time) -> VmV {
    base::framed(
        v,
        FrameV::Checks {
            ids: monitor::due_ids(v.monitor.watches, t.now),
            next: 0,
            after: AfterChecks::Schedules,
        },
    )
}

/// Lines to run of which nothing is told.
pub open spec fn quiet_jobs(s: Seq<(u32, Seq<char>)>) -> Seq<(Option<u32>, Seq<char>)> {
    Seq::new(s.len(), |i: int| (None, s[i].1))
}

/// The machine about to run the schedules that are due.
#[verifier::opaque]
pub open spec fn scheduled(v: VmV, t: Time) -> VmV {
    let m = v.monitor;
    let jobs = quiet_jobs(monitor::due_codes(m.schedules, t.now, net::seconds(t)));
    base::framed(
        ops::with_monitor(
            v,
            (MonV { schedules: monitor::run_scheds(m.schedules, t.now, net::seconds(t)), ..m }),
        ),
        FrameV::Jobs { jobs, next: 0, heal: false },
    )
}

/// The machine with the check of one more watch begun, or at the end of the checks.
#[verifier::opaque]
pub open spec fn check_begun(
    v: VmV,
    ids: Seq<u32>,
    next: usize,
    after: AfterChecks,
    t: Time,
) -> VmV {
    if next < ids.len() {
        let id = ids[next as int];
        let m = v.monitor;
        let v = base::framed(v, FrameV::Checks { ids, next: (next + 1) as usize, after });
        if monitor::has_watch(m.watches, id) {
            base::asked(
                v,
                RequestV::Probe {
                    watch: id,
                    kind: m.watches[monitor::watch_at(m.watches, id)].kind,
                    start: t.now,
                },
            )
        } else {
            v
        }
    } else {
        match after {
            AfterChecks::Nothing => v,
            AfterChecks::Heal => handling(v, true),
            AfterChecks::Schedules => scheduled(v, t),
        }
    }
}

impl VM {
    pub(crate) fn prim_check_watches(&mut self, t: Time)
        ensures
            final(self)@ == p_check_watches(old(self)@, t),
    {
        reveal(p_check_watches);
        let ids = self.monitor.due_watches(t.now);
        self.enter(Frame::Checks { ids, next: 0, after: AfterChecks::Nothing });
    }

    pub(crate) fn prim_heal(&mut self, t: Time)
        ensures
            final(self)@ == p_heal(old(self)@, t),
    {
        reveal(p_heal);
        let ids = self.monitor.due_watches(t.now);
        self.emit_str("--- heal cycle ---\n");
        if ids.len() == 0 {
            self.emit_str("  no watches due\n");
        }
        self.enter(Frame::Checks { ids, next: 0, after: AfterChecks::Heal });
    }

    pub(crate) fn tick_monitor(&mut self, t: Time)
        ensures
            final(self)@ == monitor_ticked(old(self)@, t),
    {
        reveal(monitor_ticked);
        let ids = self.monitor.due_watches(t.now);
        self.enter(Frame::Checks { ids, next: 0, after: AfterChecks::Schedules });
    }

    fn quiet_jobs(codes: Vec<(u32, String)>) -> (jobs: Vec<Job>)
        ensures
            state::job_views(jobs@) == quiet_jobs(monitor::code_views(codes@)),
    {
        let mut jobs: Vec<Job> = Vec::new();
        let mut i: usize = 0;
        while i < codes.len()
            invariant
                i <= codes@.len(),
                state::job_views(jobs@) == quiet_jobs(monitor::code_views(codes@)).take(i as int),
            decreases codes@.len() - i,
        {
            let ghost before = state::job_views(jobs@);
            let ghost all = quiet_jobs(monitor::code_views(codes@));
            let job = Job { alert: None, code: codes[i].1.clone() };
            let ghost j = job@;
            jobs.push(job);
            assert(state::job_views(jobs@) =~= before.push(j));
            assert(all[i as int] == j);
            i = i + 1;
            assert(all.take(i as int) =~= all.take(i - 1).push(all[i - 1]));
        }
        assert(quiet_jobs(monitor::code_views(codes@)).take(i as int) =~= quiet_jobs(
            monitor::code_views(codes@),
        ));
        jobs
    }

    fn begin_schedules(&mut self, t: Time)
        ensures
            final(self)@ == scheduled(old(self)@, t),
    {
        reveal(scheduled);
        let mut m = self.take_monitor();
        let codes = m.due_schedules(t.now, t.epoch / 1000);
        let jobs = VM::quiet_jobs(codes);
        self.put_monitor(m);
        self.enter(Frame::Jobs { jobs, next: 0, heal: false });
    }

    pub(crate) fn step_checks(&mut self, ids: Vec<u32>, next: usize, after: AfterChecks, t: Time)
        ensures
            final(self)@ == check_begun(old(self)@, ids@, next, after, t),
    {
        reveal(check_begun);
        if next < ids.len() {
            let id = ids[next];
            let i = self.monitor.watch_slot(id);
            let mut kind: Option<WatchKind> = None;
            if i < self.monitor.watches.len() {
                assert(self@.monitor.watches[i as int] == self.monitor.watches@[i as int]@);
                kind = Some(self.monitor.watches[i].kind.clone());
            }
            self.enter(Frame::Checks { ids, next: next + 1, after });
            if let Some(kind) = kind {
                self.ask(Request::Probe { watch: id, kind, start: t.now });
            }
        } else {
            match after {
                AfterChecks::Nothing => {},
                AfterChecks::Heal => self.begin_handlers(true),
                AfterChecks::Schedules => self.begin_schedules(t),
            }
        }
    }
}

// ---------------------------------------------------------------------------
// Outcomes
// ---------------------------------------------------------------------------

/// True of the output of a process search that found one.
pub open spec fn says_up(b: Seq<u8>) -> bool {
    exists|i: int| 0 <= i < b.len() - 1 && #[trigger] b[i] == 85 && b[i + 1] == 80
}

/// The shell command that looks for a process, and says whether it was found.
pub fn process_search(name: &str) -> (out: String)
    ensures
        out@ == "pgrep -x "@ + name@ + " >/dev/null 2>&1 && echo UP || echo DOWN"@,
{
    let mut out = text("pgrep -x ");
    out.append(name);
    out.append(" >/dev/null 2>&1 && echo UP || echo DOWN");
    out
}

/// The outcome of a check from what the host found: of an address its HTTP status, of a file its
/// size, of a process whether a search found it.
pub open spec fn status_of(k: KindV, r: ReplyV, ms: u64, epoch: u64) -> StatusV {
    match (k, r) {
        (KindV::Url(_), ReplyV::Response { body, code }) => if 200 <= code < 400 {
            monitor::up_status(code as i32, ms, text::dec_int(code as int), epoch)
        } else {
            monitor::down_status(code as i32, "HTTP "@ + text::dec_int(code as int), epoch)
        },
        (KindV::File(_), ReplyV::Size(n)) => monitor::up_status(
            0,
            ms,
            text::dec(n as nat) + "b"@,
            epoch,
        ),
        (KindV::File(_), ReplyV::Done) => monitor::down_status(-1i32, "not found"@, epoch),
        (KindV::Process(_), ReplyV::Response { body, code }) => if says_up(body) {
            monitor::up_status(0, ms, "running"@, epoch)
        } else {
            monitor::down_status(-1i32, "not running"@, epoch)
        },
        _ => monitor::down_status(-1i32, host::fault_of(r), epoch),
    }
}

/// The machine with a bonus.
#[verifier::opaque]
pub open spec fn rewarded(v: VmV) -> VmV {
    VmV {
        fitness: FitV { score: v.fitness.score.wrapping_add(HANDLER_BONUS), ..v.fitness },
        ..v
    }
}

/// The machine after an alert: it is shown, and its handler runs.
#[verifier::opaque]
pub open spec fn alerted(v: VmV, a: AlertV) -> VmV {
    let h = handler_of(v.monitor, a.watch_id);
    let v = base::emit(
        v,
        "ALERT ["@ + monitor::level_label(a.level) + "] watch #"@ + text::dec(a.watch_id as nat)
            + ": "@ + a.message + "\n"@,
    );
    match h {
        Some(code) => base::lined(base::framed(v, FrameV::Bonus), code),
        None => v,
    }
}

/// The machine after the outcome of a check.
#[verifier::opaque]
pub open spec fn probed(v: VmV, id: u32, k: KindV, start: u64, r: ReplyV, t: Time) -> VmV {
    let s = status_of(k, r, monitor::millis_between(start, t.now) as u64, net::seconds(t));
    let m = v.monitor;
    let v = ops::with_monitor(v, monitor::checked(m, id, s, t.now, net::seconds(t)));
    match monitor::raised(m, id, s, net::seconds(t)) {
        Some(a) => alerted(v, a),
        None => v,
    }
}

fn find_up(b: &[u8]) -> (r: bool)
    ensures
        r == says_up(b@),
{
    let n = b.len();
    let mut i: usize = 0;
    while i < n && n - i > 1
        invariant
            i <= n,
            n == b@.len(),
            forall|j: int| 0 <= j < i && j + 1 < b@.len() ==> !(#[trigger] b@[j] == 85 && b@[j + 1] == 80),
        decreases b@.len() - i,
    {
        if b[i] == 85 && b[i + 1] == 80 {
            assert(b@[i as int] == 85);
            return true;
        }
        i = i + 1;
    }
    false
}

fn status_from(k: &WatchKind, r: &Reply, ms: u64, epoch: u64) -> (s: WatchStatus)
    ensures
        s@ == status_of(k@, r@, ms, epoch),
{
    match (k, r) {
        (WatchKind::Url(_), Reply::Response { body, code }) => {
            if 200 <= *code && *code < 400 {
                let mut m = String::new();
                push_i64(&mut m, *code);
                assert(m@ =~= text::dec_int(*code as int));
                WatchStatus::up_at(*code as i32, ms, m, epoch)
            } else {
                let mut m = text("HTTP ");
                push_i64(&mut m, *code);
                WatchStatus::down_at(*code as i32, m, epoch)
            }
        },
        (WatchKind::File(_), Reply::Size(n)) => {
            let mut m = String::new();
            push_u64(&mut m, *n);
            m.append("b");
            assert(m@ =~= text::dec(*n as nat) + "b"@);
            WatchStatus::up_at(0, ms, m, epoch)
        },
        (WatchKind::File(_), Reply::Done) => WatchStatus::down_at(-1, text("not found"), epoch),
        (WatchKind::Process(_), Reply::Response { body, code }) => {
            if find_up(body) {
                WatchStatus::up_at(0, ms, text("running"), epoch)
            } else {
                WatchStatus::down_at(-1, text("not running"), epoch)
            }
        },
        _ => WatchStatus::down_at(-1, host::fault_text(r), epoch),
    }
}

impl VM {
    pub(crate) fn step_bonus(&mut self)
        ensures
            final(self)@ == rewarded(old(self)@),
    {
        reveal(rewarded);
        self.fitness.score = self.fitness.score.wrapping_add(HANDLER_BONUS);
    }

    fn raise(&mut self, a: &monitor::Alert)
        ensures
            final(self)@ == alerted(old(self)@, a@),
    {
        reveal(alerted);
        let h = VM::handler_of(&self.monitor, a.watch_id);
        let mut s = text("ALERT [");
        s.append(a.level.label());
        s.append("] watch #");
        push_u64(&mut s, a.watch_id as u64);
        s.append(": ");
        s.append(a.message.as_str());
        s.append("\n");
        self.emit_str(s.as_str());
        if let Some(code) = h {
            self.enter(Frame::Bonus);
            self.begin_line(code.as_str());
        }
    }

    pub(crate) fn resume_probe(&mut self, id: u32, k: &WatchKind, start: u64, r: &Reply, t: Time)
        ensures
            final(self)@ == probed(old(self)@, id, k@, start, r@, t),
    {
        reveal(probed);
        let ms: u64 = if t.now < start {
            0
        } else {
            t.now - start
        };
        let epoch: u64 = t.epoch / 1000;
        let s = status_from(k, r, ms, epoch);
        let mut m = self.take_monitor();
        let a = m.record_check(id, s, t.now, epoch);
        self.put_monitor(m);
        if let Some(a) = a {
            self.raise(&a);
        }
    }
}

// ---------------------------------------------------------------------------
// What an outcome comes to
// ---------------------------------------------------------------------------

/// An address is well exactly if the host answered with a status of at least 200 and less than 400,
/// whatever the body says. The status is kept, and the message names it.
pub proof fn law_address_well(url: Seq<char>, body: Seq<u8>, code: i64, ms: u64, epoch: u64)
    ensures
        ({
            let s = status_of(
                KindV::Url(url),
                ReplyV::Response { body, code },
                ms,
                epoch,
            );
            &&& s.ok <==> code >= 200 && code <= 399
            &&& s.ok ==> s.message == text::dec_int(code as int) && s.response_ms == ms
            &&& !s.ok ==> s.message == "HTTP "@ + text::dec_int(code as int) && s.response_ms == 0
            &&& i32::MIN <= code <= i32::MAX ==> s.code == code
            &&& s.timestamp == epoch
        }),
{
}

/// A file is well exactly if the host gave its size; a process exactly if the search for it said
/// that it is up.
pub proof fn law_file_and_process_well(name: Seq<char>, r: ReplyV, ms: u64, epoch: u64)
    ensures
        status_of(KindV::File(name), r, ms, epoch).ok <==> r is Size,
        status_of(KindV::Process(name), r, ms, epoch).ok <==> (r matches ReplyV::Response {
            body,
            ..
        } && exists|i: int|
            0 <= i && i + 1 < body.len() && #[trigger] body[i] == 0x55 && body[i + 1] == 0x50),
        status_of(KindV::Url(name), r, ms, epoch).ok ==> r is Response,
        r matches ReplyV::Size(n) ==> status_of(KindV::File(name), r, ms, epoch).message
            == text::dec(n as nat) + "b"@,
{
}

/// When the check of a watch that was well does not find it well, one alert is raised: open, with
/// the watch's level and the message of the outcome. It is shown and the watch's handler is run, if
/// it has one. In every other case no alert is raised and nothing is run.
pub proof fn law_trouble_raises_alert(v: VmV, i: int, k: KindV, start: u64, r: ReplyV, t: Time)
    requires
        0 <= i < v.monitor.watches.len(),
        forall|j: int|
            0 <= j < i ==> (#[trigger] v.monitor.watches[j]).id != v.monitor.watches[i].id,
        start <= t.now,
    ensures
        ({
            let x = v.monitor.watches[i];
            let s = status_of(k, r, (t.now - start) as u64, t.epoch / 1000);
            let w = probed(v, x.id, k, start, r, t);
            let trouble = x.last_status.ok && !s.ok;
            &&& w.monitor.watches[i].last_status == s
            &&& w.monitor.watches[i].last_check == Some(t.now)
            &&& trouble ==> {
                let a = w.monitor.alerts.last();
                &&& w.monitor.alerts == v.monitor.alerts.push(a)
                &&& a.watch_id == x.id && a.level == x.alert_level && a.message == s.message
                &&& !a.acknowledged && a.timestamp == t.epoch / 1000
                &&& a.id == v.monitor.next_id
                &&& x.alert_handler matches Some(code) ==> w.frames == v.frames.push(
                    FrameV::Bonus,
                ).push(FrameV::Line) && w.input == code && w.pos == 0
                &&& x.alert_handler.is_none() ==> w.frames == v.frames
                &&& v.output.is_none() ==> w.console == v.console.push(
                    (
                        false,
                        "ALERT ["@ + monitor::level_label(x.alert_level) + "] watch #"@ + text::dec(
                            x.id as nat,
                        ) + ": "@ + s.message + "\n"@,
                    ),
                )
            }
            &&& !trouble ==> {
                &&& w.frames == v.frames && w.console == v.console && w.output == v.output
                &&& forall|a: AlertV|
                    w.monitor.alerts.contains(a) ==> #[trigger] v.monitor.alerts.contains(a)
            }
        }),
{
    reveal(probed);
    reveal(alerted);
    reveal(ops::with_monitor);
    reveal(base::emit);
    reveal(base::framed);
    reveal(base::lined);
    let x = v.monitor.watches[i];
    monitor_laws::lemma_watch_slot(v.monitor.watches, i);
    let s = status_of(k, r, (t.now - start) as u64, t.epoch / 1000);
    let m = monitor::checked(v.monitor, x.id, s, t.now, t.epoch / 1000);
    assert(m.watches[i].alert_handler == x.alert_handler);
    assert(m.watches[i].id == x.id);
    assert forall|j: int| 0 <= j < i implies (#[trigger] m.watches[j]).id != x.id by {
        assert(v.monitor.watches[j].id != x.id);
    }
    monitor_laws::lemma_watch_slot(m.watches, i);
    monitor_laws::lemma_others_among(v.monitor.alerts, x.id);
}

/// Every answer of 400 or more to a watch of an address that was well raises an alert, and so does
/// every one below 200.
pub proof fn law_bad_answer_raises_alert(
    v: VmV,
    i: int,
    url: Seq<char>,
    start: u64,
    body: Seq<u8>,
    code: i64,
    t: Time,
)
    requires
        0 <= i < v.monitor.watches.len(),
        forall|j: int|
            0 <= j < i ==> (#[trigger] v.monitor.watches[j]).id != v.monitor.watches[i].id,
        v.monitor.watches[i].last_status.ok,
        start <= t.now,
        code < 200 || code >= 400,
    ensures
        ({
            let x = v.monitor.watches[i];
            let w = probed(
                v,
                x.id,
                KindV::Url(url),
                start,
                ReplyV::Response { body, code },
                t,
            );
            &&& w.monitor.alerts.len() == v.monitor.alerts.len() + 1
            &&& w.monitor.alerts.last().watch_id == x.id
            &&& w.monitor.alerts.last().message == "HTTP "@ + text::dec_int(code as int)
            &&& !w.monitor.watches[i].last_status.ok
        }),
{
    law_trouble_raises_alert(
        v,
        i,
        KindV::Url(url),
        start,
        ReplyV::Response { body, code },
        t,
    );
    law_address_well(url, body, code, (t.now - start) as u64, t.epoch / 1000);
}

/// A handler that has run earns fifteen points.
pub proof fn law_handler_earns(v: VmV)
    requires
        v.fitness.score <= i64::MAX - 15,
    ensures
        rewarded(v).fitness.score == v.fitness.score + 15,
{
    reveal(rewarded);
}

/// The handlers that are run are those of the alerts that nobody has acknowledged, in their order.
pub proof fn law_open_alerts_are_handled(m: MonV, s: Seq<AlertV>, a: AlertV, told: bool)
    ensures
        handlers(m, s.push(a), told) == (if !a.acknowledged && handler_of(m, a.watch_id).is_some() {
            handlers(m, s, told).push(
                (
                    if told {
                        Some(a.id)
                    } else {
                        None
                    },
                    handler_of(m, a.watch_id)->0,
                ),
            )
        } else {
            handlers(m, s, told)
        }),
        handlers(m, Seq::empty(), told).len() == 0,
{
    assert(s.push(a).drop_last() =~= s);
}

} // verus!
