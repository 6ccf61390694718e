//! The interpreter: one step at a time, with the host answering in between.

use crate::features::monitor;
use crate::goals;
use crate::goals::{ResultV, TaskResult};
use crate::prelude::prelude;
use crate::text;
use crate::text::{parse_i64, text, to_upper};
use crate::types;
use crate::types::{clone_body, Instruction, Op};
use crate::vm::base;
use crate::vm::checks;
use crate::vm::compile;
use crate::vm::compile::{P_DO_RT, P_LOOP_RT};
use crate::vm::dispatch;
use crate::vm::evolve;
use crate::vm::evolve::{P_BENCHMARK_RT, P_MUTATE_WORD_RT};
use crate::vm::family;
use crate::vm::goal_words;
use crate::vm::goal_words::{P_GOAL_EXEC_RT, P_REDUCE_RT};
use crate::vm::host;
use crate::vm::host::P_IO_RT;
use crate::vm::keep;
use crate::vm::ops;
use crate::vm::ops::{
    P_ALERT_THRESHOLD_RT, P_EVERY_RT, P_ON_ALERT_RT, P_WATCH_FILE_RT, P_WATCH_PROC_RT,
    P_WATCH_URL_RT,
};
use crate::vm::sandbox;
use crate::vm::state;
use crate::vm::state::{
    After, AfterV, Frame, FrameV, Reply, ReplyV, Request, RequestV, Saved, SavedV, Time, VmV,
    VM,
};
use crate::vm::ticks;
use crate::vm::trials;
use vstd::prelude::*;

verus! {

// ---------------------------------------------------------------------------
// Words of a line
// ---------------------------------------------------------------------------

/// The message about a word that is neither known nor a number.
pub open spec fn unknown_word(w: Seq<char>) -> Seq<char> {
    "error: unknown word '"@ + w + "'\n"@
}

/// The number that a word writes.
pub open spec fn number_of(w: Seq<char>) -> Option<int> {
    text::in_range(text::parse_int(w), i64::MIN as int, i64::MAX as int)
}

/// The machine with a word begun.
#[verifier::opaque]
pub open spec fn called(v: VmV, i: usize) -> VmV {
    base::framed(v, FrameV::Body { body: v.dict[i as int].body, ip: 0 })
}

/// The machine with its definition given up.
#[verifier::opaque]
pub open spec fn abandoned(v: VmV) -> VmV {
    VmV { compiling: false, def: None, ..v }
}

/// A word outside a definition: it is run, or it is a number for the stack.
#[verifier::opaque]
pub open spec fn interpreted(v: VmV, w: Seq<char>) -> VmV {
    match base::found(v, w) {
        Some(i) => called(v, i),
        None => match number_of(w) {
            Some(n) => base::pushed(v, n as i64),
            None => if v.silent {
                v
            } else {
                base::emit(v, unknown_word(w))
            },
        },
    }
}

/// A word in a definition: it is compiled, unless it runs at compile time.
#[verifier::opaque]
pub open spec fn compiled_word(v: VmV, w: Seq<char>) -> VmV {
    match base::found(v, w) {
        Some(i) => if v.dict[i as int].immediate {
            called(v, i)
        } else {
            base::compiled(v, Op::Call(i))
        },
        None => match number_of(w) {
            Some(n) => base::compiled(v, Op::Literal(n as i64)),
            None => abandoned(base::emit(v, unknown_word(w))),
        },
    }
}

/// The next word of the input line, or its end.
#[verifier::opaque]
pub open spec fn line_stepped(v: VmV) -> VmV {
    let (w, v) = base::worded(v);
    match w {
        Some(w) => if !v.running {
            v
        } else if v.compiling {
            compiled_word(base::framed(v, FrameV::Line), text::upper(w))
        } else {
            interpreted(base::framed(v, FrameV::Line), text::upper(w))
        },
        None => v,
    }
}

impl VM {
    fn call_word(&mut self, i: usize)
        requires
            i < old(self).dictionary@.len(),
        ensures
            final(self)@ == called(old(self)@, i),
    {
        reveal(called);
        assert(self@.dict[i as int] == self.dictionary@[i as int]@);
        let body = clone_body(&self.dictionary[i].body);
        self.enter(Frame::Body { body, ip: 0 });
    }

    fn abandon(&mut self)
        ensures
            final(self)@ == abandoned(old(self)@),
    {
        reveal(abandoned);
        self.compiling = false;
        self.current_def = None;
    }

    fn say_unknown(&mut self, w: &str)
        ensures
            final(self)@ == base::emit(old(self)@, unknown_word(w@)),
    {
        let mut s = text("error: unknown word '");
        s.append(w);
        s.append("'\n");
        self.emit_str(s.as_str());
    }

    /// Runs a word outside a definition.
    pub(crate) fn interpret_word(&mut self, w: &str)
        ensures
            final(self)@ == interpreted(old(self)@, w@),
    {
        reveal(interpreted);
        match self.find_word(w) {
            Some(i) => self.call_word(i),
            None => match parse_i64(w) {
                Some(n) => self.push(n),
                None => {
                    if !self.silent {
                        self.say_unknown(w);
                    }
                },
            },
        }
    }

    /// Compiles a word of a definition.
    pub(crate) fn compile_word(&mut self, w: &str)
        ensures
            final(self)@ == compiled_word(old(self)@, w@),
    {
        reveal(compiled_word);
        match self.find_word(w) {
            Some(i) => {
                assert(self@.dict[i as int] == self.dictionary@[i as int]@);
                if self.dictionary[i].immediate {
                    self.call_word(i);
                } else {
                    self.compile(Instruction::Call(i));
                }
            },
            None => match parse_i64(w) {
                Some(n) => self.compile(Instruction::Literal(n)),
                None => {
                    self.say_unknown(w);
                    self.abandon();
                },
            },
        }
    }

    fn step_line(&mut self)
        ensures
            final(self)@ == line_stepped(old(self)@),
    {
        reveal(line_stepped);
        match self.next_word() {
            Some(w) => {
                if !self.running {
                    return ;
                }
                let compiling = self.compiling;
                let upper = to_upper(w.as_str());
                assert(upper@ == text::upper(w@));
                self.enter(Frame::Line);
                if compiling {
                    self.compile_word(upper.as_str());
                } else {
                    self.interpret_word(upper.as_str());
                }
            },
            None => {},
        }
    }
}

// ---------------------------------------------------------------------------
// Bodies
// ---------------------------------------------------------------------------

/// The built-in words that only compiled bodies run.
#[verifier::opaque]
pub open spec fn run_time(v: VmV, id: usize, t: Time) -> VmV {
    if id == P_DO_RT {
        compile::p_do_rt(v)
    } else if id == P_LOOP_RT {
        compile::p_loop_rt(v)
    } else if id == P_GOAL_EXEC_RT {
        goal_words::p_goal_exec_rt(v, t)
    } else if id == P_IO_RT {
        host::p_io_rt(v)
    } else if id == P_MUTATE_WORD_RT {
        evolve::p_mutate_word_rt(v)
    } else if id == P_BENCHMARK_RT {
        evolve::p_benchmark_rt(v)
    } else if id == P_REDUCE_RT {
        goal_words::p_reduce_rt(v)
    } else if id == P_WATCH_URL_RT {
        ops::p_watch_rt(v, 0, t)
    } else if id == P_WATCH_FILE_RT {
        ops::p_watch_rt(v, 1, t)
    } else if id == P_WATCH_PROC_RT {
        ops::p_watch_rt(v, 2, t)
    } else if id == P_ON_ALERT_RT {
        ops::p_on_alert_rt(v)
    } else if id == P_EVERY_RT {
        ops::p_every_rt(v)
    } else if id == P_ALERT_THRESHOLD_RT {
        ops::p_alert_threshold_rt(v)
    } else {
        dispatch::primitive(v, id, t)
    }
}

/// Where a branch leads.
pub open spec fn target(ip: usize, offset: i64) -> usize {
    (ip as i64).wrapping_add(offset) as usize
}

/// The machine with its time used up.
#[verifier::opaque]
pub open spec fn overdue(v: VmV) -> VmV {
    VmV { timed_out: true, ..v }
}

/// True of a machine whose time is used up.
pub open spec fn late(v: VmV, t: Time) -> bool {
    v.deadline matches Some(d) && t.now > d
}

/// One instruction of a body, with the rest of the body still to run.
#[verifier::opaque]
pub open spec fn performed(v: VmV, body: Seq<Op>, ip: usize, t: Time) -> VmV {
    match body[ip as int] {
        Op::Branch(o) => base::framed(v, FrameV::Body { body, ip: target(ip, o) }),
        Op::BranchIfZero(o) => {
            let (x, v) = base::popped(v);
            base::framed(
                v,
                FrameV::Body {
                    body,
                    ip: if x == 0 {
                        target(ip, o)
                    } else {
                        (ip + 1) as usize
                    },
                },
            )
        },
        op => {
            let w = base::framed(v, FrameV::Body { body, ip: (ip + 1) as usize });
            match op {
                Op::Primitive(id) => run_time(w, id, t),
                Op::Literal(x) => base::pushed(w, x),
                Op::Call(i) => if i < v.dict.len() {
                    called(w, i)
                } else {
                    base::crash(w)
                },
                Op::StringLit(s) => base::emit(w, s),
                _ => w,
            }
        },
    }
}

/// The next instruction of a body, or its end. A run whose time is used up ends all bodies.
#[verifier::opaque]
pub open spec fn body_stepped(v: VmV, body: Seq<Op>, ip: usize, t: Time) -> VmV {
    if ip >= body.len() || v.timed_out {
        v
    } else if late(v, t) {
        overdue(v)
    } else {
        performed(v, body, ip, t)
    }
}

impl VM {
    fn execute_run_time(&mut self, id: usize, t: Time)
        ensures
            final(self)@ == run_time(old(self)@, id, t),
    {
        reveal(run_time);
        match id {
            P_DO_RT => self.rt_do(),
            P_LOOP_RT => self.rt_loop(),
            P_GOAL_EXEC_RT => self.rt_goal_exec(t),
            P_IO_RT => self.rt_io(),
            P_MUTATE_WORD_RT => self.rt_mutate_word(),
            P_BENCHMARK_RT => self.rt_benchmark(),
            P_REDUCE_RT => self.rt_reduce(),
            P_WATCH_URL_RT => self.rt_watch(0, t),
            P_WATCH_FILE_RT => self.rt_watch(1, t),
            P_WATCH_PROC_RT => self.rt_watch(2, t),
            P_ON_ALERT_RT => self.rt_on_alert(),
            P_EVERY_RT => self.rt_every(),
            P_ALERT_THRESHOLD_RT => self.rt_alert_threshold(),
            _ => self.execute_primitive(id, t),
        }
    }

    fn set_overdue(&mut self)
        ensures
            final(self)@ == overdue(old(self)@),
    {
        reveal(overdue);
        self.timed_out = true;
    }

    fn perform(&mut self, body: Vec<Instruction>, ip: usize, t: Time)
        requires
            ip < body@.len(),
        ensures
            final(self)@ == performed(old(self)@, types::ops(body@), ip, t),
    {
        reveal(performed);
        let op = body[ip].clone();
        assert(types::ops(body@)[ip as int] == op@);
        let len = body.len();
        assert(ip < len);
        match op {
            Instruction::Branch(o) => {
                let to = (ip as i64).wrapping_add(o) as usize;
                self.enter(Frame::Body { body, ip: to });
            },
            Instruction::BranchIfZero(o) => {
                let x = self.pop();
                let to = if x == 0 {
                    (ip as i64).wrapping_add(o) as usize
                } else {
                    ip + 1
                };
                self.enter(Frame::Body { body, ip: to });
            },
            Instruction::Primitive(id) => {
                self.enter(Frame::Body { body, ip: ip + 1 });
                self.execute_run_time(id, t);
            },
            Instruction::Literal(x) => {
                self.enter(Frame::Body { body, ip: ip + 1 });
                self.push(x);
            },
            Instruction::Call(i) => {
                let known = i < self.dictionary.len();
                let ghost v = self@;
                self.enter(Frame::Body { body, ip: ip + 1 });
                assert(self@.dict == v.dict) by {
                    reveal(base::framed);
                }
                if known {
                    assert(self@.dict.len() == self.dictionary@.len());
                    self.call_word(i);
                } else {
                    self.crash();
                }
            },
            Instruction::StringLit(s) => {
                self.enter(Frame::Body { body, ip: ip + 1 });
                self.emit_str(s.as_str());
            },
        }
    }

    fn step_body(&mut self, body: Vec<Instruction>, ip: usize, t: Time)
        ensures
            final(self)@ == body_stepped(old(self)@, types::ops(body@), ip, t),
    {
        reveal(body_stepped);
        if ip >= body.len() || self.timed_out {
            return ;
        }
        if let Some(d) = self.deadline {
            if t.now > d {
                self.set_overdue();
                return ;
            }
        }
        self.perform(body, ip, t);
    }
}

// ---------------------------------------------------------------------------
// The sandbox and the prelude
// ---------------------------------------------------------------------------

/// The machine with the result of a run.
#[verifier::opaque]
pub open spec fn with_result(v: VmV, r: Option<ResultV>) -> VmV {
    VmV { result: r, ..v }
}

/// What follows a run in the sandbox.
#[verifier::opaque]
pub open spec fn followed(v: VmV, r: ResultV, after: AfterV, t: Time) -> VmV {
    match after {
        AfterV::Return => with_result(v, Some(r)),
        AfterV::Claim { task_id } => sandbox::claim_ended(v, task_id, r),
        AfterV::AutoClaim { task_id, start } => sandbox::auto_claim_ended(v, task_id, start, r, t),
        AfterV::Score { start, next } => trials::scored(
            v,
            trials::score_of(r, monitor::millis_between(start, t.now) as u64),
            next,
        ),
    }
}

/// The next line of a run in the sandbox, or its end.
#[verifier::opaque]
pub open spec fn sandbox_stepped(
    v: VmV,
    saved: SavedV,
    lines: Seq<Seq<char>>,
    next: usize,
    after: AfterV,
    t: Time,
) -> VmV {
    if sandbox::goes_on(v, lines.len(), next) {
        base::lined(
            base::framed(
                v,
                FrameV::Sandbox { saved, lines, next: (next + 1) as usize, after },
            ),
            lines[next as int],
        )
    } else {
        followed(sandbox::restored(v, saved), sandbox::outcome(v), after, t)
    }
}

/// The machine silent, or not.
#[verifier::opaque]
pub open spec fn with_silent(v: VmV, on: bool) -> VmV {
    VmV { silent: on, ..v }
}

/// The next line of the prelude, or its end.
#[verifier::opaque]
pub open spec fn prelude_stepped(v: VmV, lines: Seq<Seq<char>>, next: usize, silent: bool) -> VmV {
    if next < lines.len() {
        base::lined(
            base::framed(v, FrameV::Prelude { lines, next: (next + 1) as usize, silent }),
            lines[next as int],
        )
    } else {
        with_silent(v, silent)
    }
}

impl VM {
    pub(crate) fn set_result(&mut self, r: Option<TaskResult>)
        ensures
            final(self)@ == with_result(old(self)@, goals::opt_result(r)),
    {
        reveal(with_result);
        self.last_result = r;
    }

    fn follow(&mut self, r: TaskResult, after: After, t: Time)
        ensures
            final(self)@ == followed(old(self)@, r@, after@, t),
    {
        reveal(followed);
        match after {
            After::Return => self.set_result(Some(r)),
            After::Claim { task_id } => self.finish_claim(task_id, r),
            After::AutoClaim { task_id, start } => self.finish_auto_claim(task_id, start, r, t),
            After::Score { start, next } => {
                let elapsed: u64 = if t.now < start {
                    0
                } else {
                    t.now - start
                };
                let x = trials::score(&r, elapsed);
                self.follow_score(x, next);
            },
        }
    }

    fn step_sandbox(
        &mut self,
        saved: Saved,
        lines: Vec<String>,
        next: usize,
        after: After,
        t: Time,
    )
        ensures
            final(self)@ == sandbox_stepped(
                old(self)@,
                saved@,
                text::texts(lines@),
                next,
                after@,
                t,
            ),
    {
        reveal(sandbox_stepped);
        if next < lines.len() && (next == 0 || (!self.timed_out && self.running)) {
            let line = lines[next].clone();
            assert(text::texts(lines@)[next as int] == line@);
            self.enter(Frame::Sandbox { saved, lines, next: next + 1, after });
            self.begin_line(line.as_str());
        } else {
            let r = self.sandbox_result();
            self.restore(saved);
            self.follow(r, after, t);
        }
    }

    pub(crate) fn set_silent(&mut self, on: bool)
        ensures
            final(self)@ == with_silent(old(self)@, on),
    {
        reveal(with_silent);
        self.silent = on;
    }

    fn step_prelude(&mut self, lines: Vec<String>, next: usize, silent: bool)
        ensures
            final(self)@ == prelude_stepped(old(self)@, text::texts(lines@), next, silent),
    {
        reveal(prelude_stepped);
        if next < lines.len() {
            let line = lines[next].clone();
            assert(text::texts(lines@)[next as int] == line@);
            self.enter(Frame::Prelude { lines, next: next + 1, silent });
            self.begin_line(line.as_str());
        } else {
            self.set_silent(silent);
        }
    }
}

// ---------------------------------------------------------------------------
// One step
// ---------------------------------------------------------------------------

/// The work of a frame that has been taken off.
#[verifier::opaque]
pub open spec fn worked(v: VmV, f: FrameV, t: Time) -> VmV {
    match f {
        FrameV::Line => line_stepped(v),
        FrameV::Body { body, ip } => body_stepped(v, body, ip, t),
        FrameV::Sandbox { saved, lines, next, after } => sandbox_stepped(
            v,
            saved,
            lines,
            next,
            after,
            t,
        ),
        FrameV::Split { saved, code, rest, priority } => goal_words::split_ran(
            v,
            saved,
            code,
            rest,
            priority,
            t,
        ),
        FrameV::Jobs { jobs, next, heal } => checks::job_begun(v, jobs, next, heal),
        FrameV::Checks { ids, next, after } => checks::check_begun(v, ids, next, after, t),
        FrameV::Bonus => checks::rewarded(v),
        FrameV::Reduce { values, next, code } => goal_words::reduced(v, values, next, code),
        FrameV::SpawnMany { next, count } => family::next_spawned(v, next, count, t),
        FrameV::Probe { index, body, round, saved, seen, change } => trials::observed(
            v,
            index,
            body,
            round,
            saved,
            seen,
            change,
            t,
        ),
        FrameV::Prelude { lines, next, silent } => prelude_stepped(v, lines, next, silent),
        FrameV::Tick { stage } => ticks::ticked(v, stage, t),
    }
}

/// True of a machine that can take a step: it waits for nothing and has work to do.
pub open spec fn ready(v: VmV) -> bool {
    !v.crashed && v.pending.is_none() && v.frames.len() > 0
}

/// The machine after a step. A machine that is not ready stays as it is.
#[verifier::opaque]
pub open spec fn stepped(v: VmV, t: Time) -> VmV {
    if ready(v) {
        worked(base::unframed(v), v.frames.last(), t)
    } else {
        v
    }
}

impl VM {
    fn work(&mut self, f: Frame, t: Time)
        ensures
            final(self)@ == worked(old(self)@, f@, t),
    {
        reveal(worked);
        match f {
            Frame::Line => self.step_line(),
            Frame::Body { body, ip } => self.step_body(body, ip, t),
            Frame::Sandbox { saved, lines, next, after } => self.step_sandbox(
                saved,
                lines,
                next,
                after,
                t,
            ),
            Frame::Split { saved, code, rest, priority } => self.end_split(
                saved,
                code,
                rest,
                priority,
                t,
            ),
            Frame::Jobs { jobs, next, heal } => self.step_jobs(jobs, next, heal),
            Frame::Checks { ids, next, after } => self.step_checks(ids, next, after, t),
            Frame::Bonus => self.step_bonus(),
            Frame::Reduce { values, next, code } => self.step_reduce(values, next, code),
            Frame::SpawnMany { next, count } => self.step_spawn_many(next, count, t),
            Frame::Probe { index, body, round, saved, seen, change } => self.step_probe(
                index,
                body,
                round,
                saved,
                seen,
                change,
                t,
            ),
            Frame::Prelude { lines, next, silent } => self.step_prelude(lines, next, silent),
            Frame::Tick { stage } => self.step_tick(stage, t),
        }
    }

    /// True if the machine can take a step.
    pub fn is_ready(&self) -> (b: bool)
        ensures
            b == ready(self@),
    {
        !self.crashed && self.pending.is_none() && self.frames.len() > 0
    }

    /// Takes a step at a time.
    pub fn step(&mut self, t: Time)
        ensures
            final(self)@ == stepped(old(self)@, t),
    {
        reveal(stepped);
        if self.is_ready() {
            if let Some(f) = self.leave() {
                self.work(f, t);
            }
        }
    }
}

// ---------------------------------------------------------------------------
// Answers
// ---------------------------------------------------------------------------

/// The machine with nothing asked of its host.
#[verifier::opaque]
pub open spec fn unasked(v: VmV) -> VmV {
    VmV { pending: None, ..v }
}

/// The machine with the answer to a request.
#[verifier::opaque]
pub open spec fn answered(v: VmV, q: RequestV, r: ReplyV, t: Time) -> VmV {
    match q {
        RequestV::SaveState { id, data, quiet } => keep::state_saved(v, data.len(), quiet, r),
        RequestV::LoadState { id } => keep::state_loaded(v, r),
        RequestV::Forget { id } => keep::forgotten(v),
        RequestV::ListSnapshots { id } => keep::snapshots_listed(v, r),
        RequestV::SaveSnapshot { id, name, data } => keep::snapshot_kept(v, name, r),
        RequestV::LoadSnapshot { id, name } => keep::snapshot_loaded(v, name, r),
        RequestV::Reidentify { old: was } => keep::reidentified(v, was, r),
        RequestV::Binary { purpose, state } => family::binary_read(v, purpose, state, r),
        RequestV::SpawnPackage { package, port, generation, arrived } => if arrived {
            family::child_adopted(v, r, t)
        } else {
            family::child_started(v, r, t)
        },
        RequestV::Kill { pid } => family::child_killed(v, pid),
        RequestV::SendPackage { addr, package } => family::package_sent(v, addr, package.len(), r),
        RequestV::Probe { watch, kind, start } => checks::probed(v, watch, kind, start, r, t),
        RequestV::Mutate { index, purpose, average, before, seen } => trials::mutate_replied(
            v,
            purpose,
            average,
            before,
            seen,
            r,
            t,
        ),
        RequestV::Percent { watch, good, total } => ops::uptime_told(v, watch, r),
        RequestV::Incoming => family::package_arrived(v, r),
        _ => host::io_replied(v, q, r),
    }
}

/// The machine after an answer. A machine that has asked nothing stays as it is.
#[verifier::opaque]
pub open spec fn resumed(v: VmV, r: ReplyV, t: Time) -> VmV {
    match v.pending {
        Some(q) => answered(unasked(v), q, r, t),
        None => v,
    }
}

impl VM {
    fn take_request(&mut self) -> (q: Option<Request>)
        ensures
            state::opt_request(q) == old(self)@.pending,
            final(self)@ == unasked(old(self)@),
    {
        reveal(unasked);
        self.pending.take()
    }

    fn answer(&mut self, q: Request, r: Reply, t: Time)
        ensures
            final(self)@ == answered(old(self)@, q@, r@, t),
    {
        reveal(answered);
        match q {
            Request::SaveState { id, data, quiet } => self.resume_save(data.len(), quiet, &r),
            Request::LoadState { id } => self.resume_load(&r),
            Request::Forget { id } => self.resume_reset(),
            Request::ListSnapshots { id } => self.resume_snapshots(&r),
            Request::SaveSnapshot { id, name, data } => self.resume_snapshot(name.as_str(), &r),
            Request::LoadSnapshot { id, name } => self.resume_restore(name.as_str(), &r),
            Request::Reidentify { old: was } => self.resume_reidentify(&was, &r),
            Request::Binary { purpose, state } => self.resume_binary(&purpose, &state, &r),
            Request::SpawnPackage { package, port, generation, arrived } => {
                if arrived {
                    self.resume_adopt(&r, t);
                } else {
                    self.resume_spawn(&r, t);
                }
            },
            Request::Kill { pid } => self.resume_kill(pid),
            Request::SendPackage { addr, package } => self.resume_send(
                addr.as_str(),
                package.len(),
                &r,
            ),
            Request::Probe { watch, kind, start } => self.resume_probe(watch, &kind, start, &r, t),
            Request::Mutate { index, purpose, average, before, seen } => self.resume_mutate(
                purpose,
                average,
                before,
                seen,
                r,
                t,
            ),
            Request::Percent { watch, good, total } => self.tell_uptime(watch, &r),
            Request::Incoming => self.resume_incoming(r),
            other => self.resume_io(&other, &r),
        }
    }

    /// Hands the machine the answer to what it asked.
    pub fn resume(&mut self, r: Reply, t: Time)
        ensures
            final(self)@ == resumed(old(self)@, r@, t),
    {
        reveal(resumed);
        let ghost v = self@;
        let asked = self.pending.is_some();
        if asked {
            if let Some(q) = self.take_request() {
                self.answer(q, r, t);
            }
        }
    }
}

} // verus!
