//! Words on watches, alerts and schedules.

use crate::features::monitor;
use crate::features::monitor::{AlertLevel, KindV, MonV, MonitorState, WatchKind};
use crate::goals;
use crate::text;
use crate::text::{parse_u64, push_u64, take_chars, text, trimmed, trimmed_from};
use crate::types::{Cell, Instruction, Op};
use crate::vm::base;
use crate::vm::goal_words;
use crate::vm::host;
use crate::vm::net;
use crate::vm::state;
use crate::vm::state::{Reply, ReplyV, Request, RequestV, Time, VmV, VM};
use vstd::prelude::*;

verus! {

/// The numbers of the built-in words that compiled monitoring words run.
pub const P_WATCH_URL_RT: usize = 107;

pub const P_WATCH_FILE_RT: usize = 108;

pub const P_WATCH_PROC_RT: usize = 109;

pub const P_ON_ALERT_RT: usize = 110;

pub const P_EVERY_RT: usize = 111;

pub const P_ALERT_THRESHOLD_RT: usize = 112;

/// The machine with other monitoring data.
#[verifier::opaque]
pub open spec fn with_monitor(v: VmV, m: MonV) -> VmV {
    VmV { monitor: m, ..v }
}

impl VM {
    /// Takes the monitoring data out, to be put back changed.
    pub(crate) fn take_monitor(&mut self) -> (m: MonitorState)
        ensures
            m@ == old(self)@.monitor,
            with_monitor(final(self)@, m@) == old(self)@,
            forall|n: MonV| #[trigger] with_monitor(final(self)@, n) == with_monitor(old(self)@, n),
    {
        reveal(with_monitor);
        let mut m = MonitorState::new();
        std::mem::swap(&mut self.monitor, &mut m);
        m
    }

    /// Puts the monitoring data back.
    pub(crate) fn put_monitor(&mut self, m: MonitorState)
        ensures
            final(self)@ == with_monitor(old(self)@, m@),
    {
        reveal(with_monitor);
        self.monitor = m;
    }

    /// Shows a text that ends in a number.
    pub(crate) fn say_number(&mut self, what: &str, n: u64, rest: &str)
        ensures
            final(self)@ == base::emit(old(self)@, what@ + text::dec(n as nat) + rest@),
    {
        let mut s = text(what);
        push_u64(&mut s, n);
        s.append(rest);
        self.emit_str(s.as_str());
    }
}

// ---------------------------------------------------------------------------
// Watches
// ---------------------------------------------------------------------------

/// The number of a watch, an alert or a schedule in a cell.
pub open spec fn short(x: i64) -> u32 {
    x as u32
}

/// An interval of at least a second.
pub open spec fn interval(n: u64) -> u64 {
    if n < 1 {
        1
    } else {
        n
    }
}

/// What is watched: an address, a file, or a process.
pub open spec fn kind_of(kind: u8, target: Seq<char>) -> KindV {
    if kind == 0 {
        KindV::Url(target)
    } else if kind == 1 {
        KindV::File(target)
    } else {
        KindV::Process(target)
    }
}

/// The built-in word that a compiled watch word runs.
pub open spec fn watch_rt(kind: u8) -> usize {
    if kind == 0 {
        P_WATCH_URL_RT
    } else if kind == 1 {
        P_WATCH_FILE_RT
    } else {
        P_WATCH_PROC_RT
    }
}

/// A new watch, with the interval in seconds from the stack.
#[verifier::opaque]
pub open spec fn watching(v: VmV, kind: u8, target: Seq<char>, t: Time) -> VmV {
    let (x, v) = base::popped(v);
    let every = goal_words::ident(x);
    let id = v.monitor.next_id;
    base::emit(
        base::pushed(
            with_monitor(
                v,
                monitor::with_watch(
                    v.monitor,
                    kind_of(kind, target),
                    interval(every),
                    net::seconds(t),
                ),
            ),
            id as i64,
        ),
        "watch #"@ + text::dec(id as nat) + " created (every "@ + text::dec(every as nat) + "s)\n"@,
    )
}

/// WATCH" target", WATCH-FILE" target", WATCH-PROC" target" ( interval -- id )
#[verifier::opaque]
pub open spec fn p_watch(v: VmV, kind: u8, t: Time) -> VmV {
    let (s, v) = base::parsed(v, '"');
    if v.compiling {
        goal_words::with_text_op(v, s, watch_rt(kind))
    } else {
        watching(v, kind, s, t)
    }
}

/// A watch word in a compiled word.
#[verifier::opaque]
pub open spec fn p_watch_rt(v: VmV, kind: u8, t: Time) -> VmV {
    let (i, v) = base::popped(v);
    match goal_words::code_at(v, i as usize) {
        Some(s) => watching(v, kind, s, t),
        None => v,
    }
}

/// WATCHES ( -- )
#[verifier::opaque]
pub open spec fn p_watches(v: VmV, t: Time) -> VmV {
    base::emit(v, monitor::watches_text(v.monitor, t.now))
}

/// UNWATCH ( id -- )
#[verifier::opaque]
pub open spec fn p_unwatch(v: VmV) -> VmV {
    let (x, v) = base::popped(v);
    base::emit(
        with_monitor(v, monitor::without_watch(v.monitor, short(x))),
        "watch #"@ + text::dec(short(x) as nat) + " removed\n"@,
    )
}

/// WATCH-LOG ( id -- )
#[verifier::opaque]
pub open spec fn p_watch_log(v: VmV) -> VmV {
    let (x, v) = base::popped(v);
    base::emit(v, monitor::watch_log_text(v.monitor, short(x)))
}

/// UPTIME ( id -- ) The host shows the share of good outcomes. A watch that is not there is never
/// up, and one that has not been checked yet is always up.
#[verifier::opaque]
pub open spec fn p_uptime(v: VmV) -> VmV {
    let (x, v) = base::popped(v);
    let m = v.monitor;
    let id = short(x);
    if !monitor::has_watch(m.watches, id) {
        base::asked(v, RequestV::Percent { watch: id, good: 0, total: 1 })
    } else {
        let h = m.watches[monitor::watch_at(m.watches, id)].history;
        if h.len() == 0 {
            base::asked(v, RequestV::Percent { watch: id, good: 1, total: 1 })
        } else {
            base::asked(
                v,
                RequestV::Percent {
                    watch: id,
                    good: monitor::good(h) as usize,
                    total: h.len() as usize,
                },
            )
        }
    }
}

/// The end of UPTIME.
#[verifier::opaque]
pub open spec fn uptime_told(v: VmV, id: u32, r: ReplyV) -> VmV {
    match r {
        ReplyV::Text(s) => base::emit(
            v,
            "watch #"@ + text::dec(id as nat) + ": "@ + s + "% uptime\n"@,
        ),
        _ => v,
    }
}

impl VM {
    fn do_add_watch(&mut self, kind: u8, target: String, t: Time)
        ensures
            final(self)@ == watching(old(self)@, kind, target@, t),
    {
        reveal(watching);
        let x = self.pop();
        let every: u64 = x as u64;
        let mut m = self.take_monitor();
        let k = if kind == 0 {
            WatchKind::Url(target)
        } else if kind == 1 {
            WatchKind::File(target)
        } else {
            WatchKind::Process(target)
        };
        let n: u64 = if every < 1 {
            1
        } else {
            every
        };
        let id = m.add_watch(k, n, t.epoch / 1000);
        self.put_monitor(m);
        self.push(id as Cell);
        let mut s = text("watch #");
        push_u64(&mut s, id as u64);
        s.append(" created (every ");
        push_u64(&mut s, every);
        s.append("s)\n");
        self.emit_str(s.as_str());
    }

    pub(crate) fn prim_watch(&mut self, kind: u8, t: Time)
        ensures
            final(self)@ == p_watch(old(self)@, kind, t),
    {
        reveal(p_watch);
        let s = self.parse_until('"');
        if self.compiling {
            let rt: usize = if kind == 0 {
                P_WATCH_URL_RT
            } else if kind == 1 {
                P_WATCH_FILE_RT
            } else {
                P_WATCH_PROC_RT
            };
            self.compile_text_op(s, rt);
        } else {
            self.do_add_watch(kind, s, t);
        }
    }

    pub(crate) fn rt_watch(&mut self, kind: u8, t: Time)
        ensures
            final(self)@ == p_watch_rt(old(self)@, kind, t),
    {
        reveal(p_watch_rt);
        let i = self.pop();
        if let Some(s) = self.text_at(i as usize) {
            self.do_add_watch(kind, s, t);
        }
    }

    pub(crate) fn prim_watches(&mut self, t: Time)
        ensures
            final(self)@ == p_watches(old(self)@, t),
    {
        reveal(p_watches);
        let s = self.monitor.format_watches(t.now);
        self.emit_str(s.as_str());
    }

    pub(crate) fn prim_unwatch(&mut self)
        ensures
            final(self)@ == p_unwatch(old(self)@),
    {
        reveal(p_unwatch);
        let id: u32 = self.pop() as u32;
        let mut m = self.take_monitor();
        let _ = m.remove_watch(id);
        self.put_monitor(m);
        self.say_number("watch #", id as u64, " removed\n");
    }

    pub(crate) fn prim_watch_log(&mut self)
        ensures
            final(self)@ == p_watch_log(old(self)@),
    {
        reveal(p_watch_log);
        let id: u32 = self.pop() as u32;
        let s = self.monitor.format_watch_log(id);
        self.emit_str(s.as_str());
    }

    pub(crate) fn prim_uptime(&mut self)
        ensures
            final(self)@ == p_uptime(old(self)@),
    {
        reveal(p_uptime);
        let id: u32 = self.pop() as u32;
        match self.monitor.uptime_counts(id) {
            None => self.ask(Request::Percent { watch: id, good: 0, total: 1 }),
            Some((good, total)) => {
                if total == 0 {
                    self.ask(Request::Percent { watch: id, good: 1, total: 1 });
                } else {
                    self.ask(Request::Percent { watch: id, good, total });
                }
            },
        }
    }

    pub(crate) fn tell_uptime(&mut self, id: u32, r: &Reply)
        ensures
            final(self)@ == uptime_told(old(self)@, id, r@),
    {
        reveal(uptime_told);
        if let Reply::Text(p) = r {
            let mut s = text("watch #");
            push_u64(&mut s, id as u64);
            s.append(": ");
            s.append(p.as_str());
            s.append("% uptime\n");
            self.emit_str(s.as_str());
        }
    }
}

// ---------------------------------------------------------------------------
// Alerts
// ---------------------------------------------------------------------------

/// ON-ALERT" code" ( id -- )
#[verifier::opaque]
pub open spec fn p_on_alert(v: VmV) -> VmV {
    let (s, v) = base::parsed(v, '"');
    if v.compiling {
        let (i, v) = base::stored(v, s);
        base::compiled(base::compiled(v, Op::Primitive(P_ON_ALERT_RT)), Op::Literal(i))
    } else {
        let (x, v) = base::popped(v);
        base::emit(
            with_monitor(v, monitor::with_handler(v.monitor, short(x), s)),
            "alert handler set for watch #"@ + text::dec(short(x) as nat) + "\n"@,
        )
    }
}

/// ON-ALERT" in a compiled word.
#[verifier::opaque]
pub open spec fn p_on_alert_rt(v: VmV) -> VmV {
    let (i, v) = base::popped(v);
    let (x, v) = base::popped(v);
    match goal_words::code_at(v, i as usize) {
        Some(s) => with_monitor(v, monitor::with_handler(v.monitor, short(x), s)),
        None => v,
    }
}

/// The number of a watch, if a text is one.
pub open spec fn watch_number(s: Seq<char>) -> Option<int> {
    text::in_range(text::parse_nat(text::trim(s)), 0, u32::MAX as int)
}

/// The level of a watch's alerts, with the level from the stack.
#[verifier::opaque]
pub open spec fn levelled(v: VmV, id: u32) -> VmV {
    let (x, v) = base::popped(v);
    with_monitor(v, monitor::with_level(v.monitor, id, monitor::level_of(x as int)))
}

/// ALERT-THRESHOLD id" ( level -- )
#[verifier::opaque]
pub open spec fn p_alert_threshold(v: VmV) -> VmV {
    let (s, v) = base::parsed(v, '"');
    if v.compiling {
        goal_words::with_text_op(v, s, P_ALERT_THRESHOLD_RT)
    } else {
        match watch_number(s) {
            Some(n) => base::emit(
                levelled(v, n as u32),
                "alert threshold set for watch #"@ + text::dec(n as nat) + "\n"@,
            ),
            None => v,
        }
    }
}

/// ALERT-THRESHOLD in a compiled word.
#[verifier::opaque]
pub open spec fn p_alert_threshold_rt(v: VmV) -> VmV {
    let (i, v) = base::popped(v);
    match goal_words::code_at(v, i as usize) {
        Some(s) => match watch_number(s) {
            Some(n) => levelled(v, n as u32),
            None => v,
        },
        None => v,
    }
}

/// ALERTS ( -- )
#[verifier::opaque]
pub open spec fn p_alerts(v: VmV) -> VmV {
    base::emit(v, monitor::alerts_text(v.monitor))
}

/// ACK ( id -- )
#[verifier::opaque]
pub open spec fn p_ack(v: VmV) -> VmV {
    let (x, v) = base::popped(v);
    base::emit(
        with_monitor(v, monitor::acknowledged(v.monitor, short(x))),
        "alert #"@ + text::dec(short(x) as nat) + " acknowledged\n"@,
    )
}

/// ALERT-HISTORY ( -- )
#[verifier::opaque]
pub open spec fn p_alert_history(v: VmV) -> VmV {
    base::emit(v, monitor::alert_history_text(v.monitor))
}

impl VM {
    pub(crate) fn prim_on_alert(&mut self)
        ensures
            final(self)@ == p_on_alert(old(self)@),
    {
        reveal(p_on_alert);
        let s = self.parse_until('"');
        if self.compiling {
            let i = self.store_text(s);
            self.compile(Instruction::Primitive(P_ON_ALERT_RT));
            self.compile(Instruction::Literal(i));
        } else {
            let id: u32 = self.pop() as u32;
            let mut m = self.take_monitor();
            m.set_alert_handler(id, s);
            self.put_monitor(m);
            self.say_number("alert handler set for watch #", id as u64, "\n");
        }
    }

    pub(crate) fn rt_on_alert(&mut self)
        ensures
            final(self)@ == p_on_alert_rt(old(self)@),
    {
        reveal(p_on_alert_rt);
        let i = self.pop();
        let id: u32 = self.pop() as u32;
        if let Some(s) = self.text_at(i as usize) {
            let mut m = self.take_monitor();
            m.set_alert_handler(id, s);
            self.put_monitor(m);
        }
    }

    fn parse_watch_number(s: &str) -> (n: Option<u64>)
        ensures
            n.is_some() == watch_number(s@).is_some(),
            n matches Some(x) ==> watch_number(s@) == Some(x as int) && x <= u32::MAX,
    {
        let r = trimmed(s);
        parse_u64(r.as_str(), u32::MAX as u64)
    }

    fn set_level(&mut self, id: u32)
        ensures
            final(self)@ == levelled(old(self)@, id),
    {
        reveal(levelled);
        let x = self.pop();
        let mut m = self.take_monitor();
        m.set_alert_level(id, AlertLevel::from_val(x));
        self.put_monitor(m);
    }

    pub(crate) fn prim_alert_threshold(&mut self)
        ensures
            final(self)@ == p_alert_threshold(old(self)@),
    {
        reveal(p_alert_threshold);
        let s = self.parse_until('"');
        if self.compiling {
            self.compile_text_op(s, P_ALERT_THRESHOLD_RT);
        } else if let Some(n) = VM::parse_watch_number(s.as_str()) {
            self.set_level(n as u32);
            self.say_number("alert threshold set for watch #", n, "\n");
        }
    }

    pub(crate) fn rt_alert_threshold(&mut self)
        ensures
            final(self)@ == p_alert_threshold_rt(old(self)@),
    {
        reveal(p_alert_threshold_rt);
        let i = self.pop();
        if let Some(s) = self.text_at(i as usize) {
            if let Some(n) = VM::parse_watch_number(s.as_str()) {
                self.set_level(n as u32);
            }
        }
    }

    pub(crate) fn prim_alerts(&mut self)
        ensures
            final(self)@ == p_alerts(old(self)@),
    {
        reveal(p_alerts);
        let s = self.monitor.format_alerts();
        self.emit_str(s.as_str());
    }

    pub(crate) fn prim_ack(&mut self)
        ensures
            final(self)@ == p_ack(old(self)@),
    {
        reveal(p_ack);
        let id: u32 = self.pop() as u32;
        let mut m = self.take_monitor();
        let _ = m.ack_alert(id);
        self.put_monitor(m);
        self.say_number("alert #", id as u64, " acknowledged\n");
    }

    pub(crate) fn prim_alert_history(&mut self)
        ensures
            final(self)@ == p_alert_history(old(self)@),
    {
        reveal(p_alert_history);
        let s = self.monitor.format_alert_history();
        self.emit_str(s.as_str());
    }
}

// ---------------------------------------------------------------------------
// The state of things
// ---------------------------------------------------------------------------

/// The number of peers.
pub open spec fn peer_total(v: VmV) -> nat {
    match v.mesh {
        Some(m) => m.peers.len(),
        None => 0,
    }
}

/// DASHBOARD ( -- )
#[verifier::opaque]
pub open spec fn p_dashboard(v: VmV) -> VmV {
    base::emit(
        v,
        monitor::dashboard_text(
            v.monitor,
            peer_total(v),
            v.fitness.score as int,
            match v.mesh {
                Some(m) => goals::goals_text(m.goals),
                None => Seq::empty(),
            },
        ),
    )
}

/// HEALTH ( -- n )
#[verifier::opaque]
pub open spec fn p_health(v: VmV) -> VmV {
    base::pushed(
        v,
        monitor::health(v.monitor, peer_total(v) as int, v.fitness.score as int) as i64,
    )
}

/// HEALTH-PORT ( -- n )
#[verifier::opaque]
pub open spec fn p_health_port(v: VmV) -> VmV {
    base::pushed(
        v,
        match v.mesh {
            Some(m) => m.repl_port as i64,
            None => 0,
        },
    )
}

/// WATCH-COUNT ( -- n )
#[verifier::opaque]
pub open spec fn p_watch_count(v: VmV) -> VmV {
    base::pushed(v, net::cell(v.monitor.watches.len()))
}

/// ALERT-COUNT ( -- n )
#[verifier::opaque]
pub open spec fn p_alert_count(v: VmV) -> VmV {
    base::pushed(v, net::cell(v.monitor.alerts.len()))
}

/// PEER-COUNT ( -- n )
#[verifier::opaque]
pub open spec fn p_peer_count(v: VmV) -> VmV {
    base::pushed(v, net::cell(peer_total(v)))
}

impl VM {
    pub(crate) fn count_peers(&self) -> (n: usize)
        ensures
            n == peer_total(self@),
    {
        match &self.mesh {
            Some(m) => m.peer_count(),
            None => 0,
        }
    }

    pub(crate) fn prim_dashboard(&mut self)
        ensures
            final(self)@ == p_dashboard(old(self)@),
    {
        reveal(p_dashboard);
        let n = self.count_peers();
        let goals = match &self.mesh {
            Some(m) => m.format_goals(),
            None => String::new(),
        };
        let s = self.monitor.format_dashboard(n, self.fitness.score, goals.as_str());
        self.emit_str(s.as_str());
    }

    pub(crate) fn prim_health(&mut self)
        ensures
            final(self)@ == p_health(old(self)@),
    {
        reveal(p_health);
        let n = self.count_peers();
        let h = self.monitor.health_score(n, self.fitness.score);
        self.push(h);
    }

    pub(crate) fn prim_health_port(&mut self)
        ensures
            final(self)@ == p_health_port(old(self)@),
    {
        reveal(p_health_port);
        let port: Cell = match &self.mesh {
            Some(m) => m.repl_port as Cell,
            None => 0,
        };
        self.push(port);
    }

    pub(crate) fn prim_watch_count(&mut self)
        ensures
            final(self)@ == p_watch_count(old(self)@),
    {
        reveal(p_watch_count);
        let n = self.monitor.watches.len();
        self.push(n as Cell);
    }

    pub(crate) fn prim_alert_count(&mut self)
        ensures
            final(self)@ == p_alert_count(old(self)@),
    {
        reveal(p_alert_count);
        let n = self.monitor.alerts.len();
        self.push(n as Cell);
    }

    pub(crate) fn prim_peer_count(&mut self)
        ensures
            final(self)@ == p_peer_count(old(self)@),
    {
        reveal(p_peer_count);
        let n = self.count_peers();
        self.push(n as Cell);
    }
}

// ---------------------------------------------------------------------------
// Schedules
// ---------------------------------------------------------------------------

/// The rest of the input line.
pub open spec fn rest_of_line(v: VmV) -> Seq<char> {
    if v.pos <= v.input.len() {
        text::trim(v.input.subrange(v.pos as int, v.input.len() as int))
    } else {
        Seq::empty()
    }
}

/// The machine at the end of its input line.
#[verifier::opaque]
pub open spec fn drained(v: VmV) -> VmV {
    VmV { pos: v.input.len() as usize, ..v }
}

/// EVERY code ( interval -- id )
#[verifier::opaque]
pub open spec fn p_every(v: VmV) -> VmV {
    let (x, v) = base::popped(v);
    let every = goal_words::ident(x);
    let code = rest_of_line(v);
    let v = drained(v);
    if code.len() == 0 {
        base::emit(v, "EVERY: no code to schedule\n"@)
    } else {
        let id = v.monitor.next_id;
        base::emit(
            base::pushed(
                with_monitor(v, monitor::with_sched(v.monitor, code, interval(every))),
                id as i64,
            ),
            "schedule #"@ + text::dec(id as nat) + " every "@ + text::dec(every as nat) + "s: "@
                + text::clip(code, 40) + "\n"@,
        )
    }
}

/// EVERY in a compiled word.
#[verifier::opaque]
pub open spec fn p_every_rt(v: VmV) -> VmV {
    base::emit(v, "EVERY only works at the REPL\n"@)
}

/// SCHEDULE ( -- )
#[verifier::opaque]
pub open spec fn p_schedule(v: VmV, t: Time) -> VmV {
    base::emit(v, monitor::schedules_text(v.monitor, t.now))
}

/// UNSCHED ( id -- )
#[verifier::opaque]
pub open spec fn p_unsched(v: VmV) -> VmV {
    let (x, v) = base::popped(v);
    base::emit(
        with_monitor(v, monitor::without_sched(v.monitor, short(x))),
        "schedule #"@ + text::dec(short(x) as nat) + " removed\n"@,
    )
}

impl VM {
    fn take_rest(&mut self) -> (code: String)
        ensures
            code@ == rest_of_line(old(self)@),
            final(self)@ == drained(old(self)@),
    {
        reveal(drained);
        let code = if self.input_pos <= self.input_buffer.len() {
            trimmed_from(&self.input_buffer, self.input_pos)
        } else {
            String::new()
        };
        self.input_pos = self.input_buffer.len();
        code
    }

    pub(crate) fn prim_every(&mut self)
        ensures
            final(self)@ == p_every(old(self)@),
    {
        reveal(p_every);
        let every: u64 = self.pop() as u64;
        let code = self.take_rest();
        if text::same_text(code.as_str(), "") {
            proof {
                reveal_strlit("");
            }
            self.emit_str("EVERY: no code to schedule\n");
            return;
        }
        proof {
            reveal_strlit("");
            if code@.len() == 0 {
                assert(code@ =~= ""@);
            }
        }
        let n: u64 = if every < 1 {
            1
        } else {
            every
        };
        let short = take_chars(code.as_str(), 40);
        let mut m = self.take_monitor();
        let id = m.add_schedule(code, n);
        self.put_monitor(m);
        self.push(id as Cell);
        let mut s = text("schedule #");
        push_u64(&mut s, id as u64);
        s.append(" every ");
        push_u64(&mut s, every);
        s.append("s: ");
        s.append(short.as_str());
        s.append("\n");
        self.emit_str(s.as_str());
    }

    pub(crate) fn rt_every(&mut self)
        ensures
            final(self)@ == p_every_rt(old(self)@),
    {
        reveal(p_every_rt);
        self.emit_str("EVERY only works at the REPL\n");
    }

    pub(crate) fn prim_schedule(&mut self, t: Time)
        ensures
            final(self)@ == p_schedule(old(self)@, t),
    {
        reveal(p_schedule);
        let s = self.monitor.format_schedules(t.now);
        self.emit_str(s.as_str());
    }

    pub(crate) fn prim_unsched(&mut self)
        ensures
            final(self)@ == p_unsched(old(self)@),
    {
        reveal(p_unsched);
        let id: u32 = self.pop() as u32;
        let mut m = self.take_monitor();
        let _ = m.remove_schedule(id);
        self.put_monitor(m);
        self.say_number("schedule #", id as u64, " removed\n");
    }
}

} // verus!
