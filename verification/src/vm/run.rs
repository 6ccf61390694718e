//! The machine as its users see it: a new machine, and runs of whole lines.

use crate::clock::{now_exact, Clock};
use crate::features::fitness;
use crate::features::fitness::FitnessTracker;
use crate::features::monitor;
use crate::features::monitor::MonitorState;
use crate::goals;
use crate::goals::{ResultV, TaskResult};
use crate::prelude::{prelude, PRELUDE};
use crate::spawn;
use crate::spawn::SpawnState;
use crate::text;
use crate::text::{split_lines, text};
use crate::types::{Cell, MEMORY_CELLS};
use crate::vm::base;
use crate::vm::laws;
use crate::vm::machine;
use crate::vm::sandbox;
use crate::vm::state;
use crate::vm::state::{
    After, AfterV, Frame, FrameV, Job, MutationStats, Printed, Reply, ReplyV, Time, VmV, VM,
};
use crate::vm::table;
use crate::vm::table::WORD_COUNT;
use crate::vm::upkeep;
use vstd::prelude::*;

verus! {

// ---------------------------------------------------------------------------
// A new machine
// ---------------------------------------------------------------------------

/// A machine without words.
pub open spec fn blank() -> VmV {
    VmV {
        stack: Seq::empty(),
        rstack: Seq::empty(),
        dict: Seq::empty(),
        memory: Seq::new(MEMORY_CELLS as nat, |i: int| 0i64),
        here: 1,
        names: Seq::empty(),
        compiling: false,
        def: None,
        input: Seq::empty(),
        pos: 0,
        running: true,
        silent: false,
        mesh: None,
        output: None,
        deadline: None,
        timed_out: false,
        timeout: 10,
        auto_claim: false,
        codes: Seq::empty(),
        sandbox: false,
        shell: false,
        trusted: Seq::empty(),
        io_log: Seq::empty(),
        history: Seq::empty(),
        stats: MutationStats { neutral: 0, beneficial: 0, harmful: 0 },
        last_mutation: None,
        fitness: fitness::fresh(),
        spawn: spawn::lone(),
        monitor: monitor::idle(),
        ws: None,
        ws_events: Seq::empty(),
        mesh_json: Seq::empty(),
        anon: 0,
        auto_save: false,
        save_every: 5,
        since_save: 0,
        node_id: None,
        frames: Seq::empty(),
        pending: None,
        console: Seq::empty(),
        crashed: false,
        result: None,
    }
}

fn zeros(n: usize) -> (v: Vec<Cell>)
    ensures
        v@ == Seq::new(n as nat, |i: int| 0i64),
{
    let mut v: Vec<Cell> = Vec::new();
    while v.len() < n
        invariant
            v@.len() <= n,
            v@ == Seq::new(v@.len(), |i: int| 0i64),
        decreases n - v@.len(),
    {
        v.push(0);
        assert(v@ =~= Seq::new(v@.len(), |i: int| 0i64));
    }
    v
}

impl VM {
    fn without_words() -> (vm: VM)
        ensures
            vm@ == blank(),
    {
        let vm = VM {
            stack: Vec::new(),
            rstack: Vec::new(),
            dictionary: Vec::new(),
            memory: zeros(MEMORY_CELLS),
            here: 1,
            primitive_names: Vec::new(),
            compiling: false,
            current_def: None,
            input_buffer: Vec::new(),
            input_pos: 0,
            running: true,
            silent: false,
            mesh: None,
            output_buffer: None,
            deadline: None,
            timed_out: false,
            execution_timeout: 10,
            auto_claim: false,
            code_strings: Vec::new(),
            sandbox_active: false,
            shell_enabled: false,
            trusted_peers: Vec::new(),
            io_log: Vec::new(),
            mutation_history: Vec::new(),
            mutation_stats: MutationStats { neutral: 0, beneficial: 0, harmful: 0 },
            last_mutation_result: None,
            fitness: FitnessTracker::new(),
            spawn_state: SpawnState::new(),
            monitor: MonitorState::new(),
            ws_state: None,
            ws_events: Vec::new(),
            ws_mesh_json: String::new(),
            anon_depth: 0,
            auto_save_enabled: false,
            auto_save_interval: 5,
            tasks_since_save: 0,
            node_id_cache: None,
            frames: Vec::new(),
            pending: None,
            console: Vec::new(),
            crashed: false,
            last_result: None,
            clock: Clock::new(),
        };
        assert(vm@.dict =~= blank().dict);
        assert(vm@.names =~= blank().names);
        assert(vm@.codes =~= blank().codes);
        assert(vm@.trusted =~= blank().trusted);
        assert(vm@.io_log =~= blank().io_log);
        assert(vm@.history =~= blank().history);
        assert(vm@.ws_events =~= blank().ws_events);
        assert(vm@.frames =~= blank().frames);
        assert(vm@.console =~= blank().console);
        assert(vm@.mesh_json =~= blank().mesh_json);
        vm
    }

    /// A machine with the built-in words.
    pub fn new() -> (vm: Self)
        ensures
            vm@ == table::registered(blank(), WORD_COUNT as int),
    {
        let mut vm = VM::without_words();
        vm.register_primitives();
        vm
    }
}

impl Default for VM {
    fn default() -> (vm: Self)
        ensures
            vm@ == table::registered(blank(), WORD_COUNT as int),
    {
        VM::new()
    }
}

// ---------------------------------------------------------------------------
// Runs with a host
// ---------------------------------------------------------------------------

/// The machine after steps at these times.
pub open spec fn ran(v: VmV, ts: Seq<Time>) -> VmV
    decreases ts.len(),
{
    if ts.len() == 0 {
        v
    } else {
        machine::stepped(ran(v, ts.drop_last()), ts.last())
    }
}

impl VM {
    /// The time of the machine.
    pub fn read_time(&self) -> (t: Time) {
        let (epoch, nanos) = now_exact();
        Time { now: self.clock.millis(), epoch, nanos }
    }

    /// Takes steps, at most so many, until the machine has nothing to do or asks its host.
    pub fn run(&mut self, fuel: u64)
        ensures
            exists|ts: Seq<Time>|
                {
                    &&& final(self)@ == #[trigger] ran(old(self)@, ts)
                    &&& ts.len() <= fuel
                    &&& ts.len() == fuel || !machine::ready(final(self)@)
                },
    {
        let ghost mut ts: Seq<Time> = Seq::empty();
        let mut left: u64 = fuel;
        while left > 0 && self.is_ready()
            invariant
                ts.len() + left == fuel,
                self@ == ran(old(self)@, ts),
            decreases left,
        {
            let t = self.read_time();
            self.step(t);
            proof {
                let us = ts.push(t);
                assert(us.drop_last() =~= ts);
                ts = us;
            }
            left = left - 1;
        }
        assert(self@ == ran(old(self)@, ts));
    }

    /// Begins the work between two lines of input.
    pub fn begin_tick(&mut self)
        ensures
            final(self)@ == base::framed(old(self)@, FrameV::Tick { stage: 0 }),
    {
        self.enter(Frame::Tick { stage: 0 });
    }

    /// What is shown when a line has been dealt with.
    pub fn prompt(&self) -> (s: &'static str)
        ensures
            s@ == (if self@.compiling {
                "  "@
            } else {
                " ok\n> "@
            }),
    {
        if self.compiling {
            "  "
        } else {
            " ok\n> "
        }
    }

    /// Takes the text for the terminal.
    pub fn take_console(&mut self) -> (v: Vec<Printed>)
        ensures
            state::printed_views(v@) == old(self)@.console,
            final(self)@ == (VmV { console: Seq::empty(), ..old(self)@ }),
    {
        let mut v: Vec<Printed> = Vec::new();
        std::mem::swap(&mut v, &mut self.console);
        assert(self@.console =~= Seq::<(bool, Seq<char>)>::empty());
        v
    }
}

// ---------------------------------------------------------------------------
// Runs without a host
// ---------------------------------------------------------------------------

/// What a machine without a host is answered.
pub open spec fn refusal() -> ReplyV {
    ReplyV::Fault("not available"@)
}

/// The machine after a step without a host: what it asks is refused.
#[verifier::opaque]
pub open spec fn moved(v: VmV, t: Time) -> VmV {
    if v.pending.is_some() {
        machine::resumed(v, refusal(), t)
    } else {
        machine::stepped(v, t)
    }
}

/// The machine after steps at these times without a host.
pub open spec fn alone(v: VmV, ts: Seq<Time>) -> VmV
    decreases ts.len(),
{
    if ts.len() == 0 {
        v
    } else {
        moved(alone(v, ts.drop_last()), ts.last())
    }
}

/// True of a machine that has done everything above a depth of frames, or cannot go on.
pub open spec fn finished(v: VmV, depth: nat) -> bool {
    v.crashed || (v.pending.is_none() && v.frames.len() <= depth)
}

/// True of steps before which a machine, left alone, has not finished.
pub open spec fn unfinished(v: VmV, ts: Seq<Time>, depth: nat) -> bool {
    forall|k: int| 0 <= k < ts.len() ==> !finished(alone(v, #[trigger] ts.take(k)), depth)
}

/// True if a machine, left alone, comes from one state to another: the first in which it has
/// finished everything above a depth of frames, unless it takes more steps than can be counted.
pub open spec fn leads_to(v: VmV, w: VmV, depth: nat) -> bool {
    exists|ts: Seq<Time>|
        {
            &&& w == #[trigger] alone(v, ts)
            &&& unfinished(v, ts, depth)
            &&& ts.len() == u64::MAX || finished(w, depth)
        }
}

/// A machine that is left alone until it has finished everything above a depth of frames leaves
/// the frames below alone.
pub proof fn law_alone_keeps_frames(v: VmV, w: VmV, depth: nat)
    requires
        leads_to(v, w, depth),
        depth <= v.frames.len(),
    ensures
        upkeep::kept(v.frames.take(depth as int), w.frames),
{
    let ts = choose|ts: Seq<Time>|
        {
            &&& w == #[trigger] alone(v, ts)
            &&& unfinished(v, ts, depth)
            &&& ts.len() == u64::MAX || finished(w, depth)
        };
    lemma_alone_keeps(v, ts, depth);
}

proof fn lemma_alone_keeps(v: VmV, ts: Seq<Time>, depth: nat)
    requires
        unfinished(v, ts, depth),
        depth <= v.frames.len(),
    ensures
        upkeep::kept(v.frames.take(depth as int), alone(v, ts).frames),
    decreases ts.len(),
{
    if ts.len() > 0 {
        let us = ts.drop_last();
        lemma_shorter(v, ts, depth);
        lemma_alone_keeps(v, us, depth);
        let x = alone(v, us);
        assert(ts.take(us.len() as int) =~= us);
        assert(!finished(x, depth));
        let y = alone(v, ts);
        reveal(moved);
        let low = v.frames.take(depth as int);
        if x.pending.is_some() {
            laws::law_answer_keeps_frames(x, refusal(), ts.last());
            assert forall|i: int| 0 <= i < low.len() implies #[trigger] y.frames[i] == low[i] by {
                assert(y.frames[i] == x.frames[i]);
            }
        } else {
            laws::law_step_keeps_lower_frames(x, ts.last());
            let d = x.frames.drop_last();
            assert forall|i: int| 0 <= i < low.len() implies #[trigger] y.frames[i] == low[i] by {
                assert(y.frames[i] == d[i]);
                assert(d[i] == x.frames[i]);
            }
        }
    }
}

proof fn lemma_shorter(v: VmV, ts: Seq<Time>, depth: nat)
    requires
        unfinished(v, ts, depth),
        ts.len() > 0,
    ensures
        unfinished(v, ts.drop_last(), depth),
{
    let us = ts.drop_last();
    assert forall|k: int| 0 <= k < us.len() implies !finished(
        alone(v, #[trigger] us.take(k)),
        depth,
    ) by {
        assert(us.take(k) =~= ts.take(k));
    }
}

/// Code that runs in the sandbox of a machine without a host leaves the machine's stacks, its
/// definition, its output and its limits as they were, if it comes to its end.
pub proof fn law_run_isolated(v: VmV, code: Seq<char>, t: Time, w: VmV)
    requires
        leads_to(sandbox::confined(v, code, AfterV::Return, t), w, v.frames.len()),
        !w.crashed,
        w.frames.len() <= v.frames.len(),
    ensures
        laws::untouched(v, w),
        w.result.is_some(),
{
    let b = sandbox::confined(v, code, AfterV::Return, t);
    let depth = v.frames.len();
    let ts = choose|ts: Seq<Time>|
        {
            &&& w == #[trigger] alone(b, ts)
            &&& unfinished(b, ts, depth)
            &&& ts.len() == u64::MAX || finished(w, depth)
        };
    lemma_alone_isolated(v, code, t, ts);
}

proof fn lemma_alone_isolated(v: VmV, code: Seq<char>, t: Time, ts: Seq<Time>)
    requires
        unfinished(sandbox::confined(v, code, AfterV::Return, t), ts, v.frames.len()),
    ensures
        ({
            let w = alone(sandbox::confined(v, code, AfterV::Return, t), ts);
            laws::inside(v, w) || (laws::untouched(v, w) && w.result.is_some() && w.pending.is_none())
        }),
    decreases ts.len(),
{
    let b = sandbox::confined(v, code, AfterV::Return, t);
    if ts.len() == 0 {
        laws::lemma_inside_begin(v, code, t);
    } else {
        let us = ts.drop_last();
        lemma_shorter(b, ts, v.frames.len());
        lemma_alone_isolated(v, code, t, us);
        let x = alone(b, us);
        assert(ts.take(us.len() as int) =~= us);
        assert(!finished(x, v.frames.len()));
        assert(laws::inside(v, x));
        reveal(moved);
        if x.pending.is_some() {
            laws::lemma_inside_answer(v, x, refusal(), ts.last());
        } else {
            laws::lemma_inside_step(v, x, ts.last());
        }
    }
}

/// The machine with output captured, or not.
#[verifier::opaque]
pub open spec fn with_output(v: VmV, o: Option<Seq<char>>) -> VmV {
    VmV { output: o, ..v }
}

/// Lines to run of which nothing is told.
pub open spec fn plain_jobs(s: Seq<Seq<char>>) -> Seq<(Option<u32>, Seq<char>)> {
    Seq::new(s.len(), |i: int| (None, s[i]))
}

/// The machine about to run the lines of a text.
pub open spec fn scripted(v: VmV, input: Seq<char>) -> VmV {
    base::framed(
        v,
        FrameV::Jobs { jobs: plain_jobs(text::lines(input)), next: 0, heal: false },
    )
}

/// The machine about to evaluate lines with its output captured.
pub open spec fn evaluating(v: VmV, input: Seq<char>) -> VmV {
    scripted(with_output(v, Some(Seq::empty())), input)
}

/// The machine about to load the prelude.
pub open spec fn loading(v: VmV) -> VmV {
    base::framed(
        machine::with_silent(v, true),
        FrameV::Prelude { lines: text::lines(PRELUDE@), next: 0, silent: v.silent },
    )
}

/// The result of a run that did not come to its end.
pub open spec fn broken() -> ResultV {
    ResultV {
        stack: Seq::empty(),
        output: Seq::empty(),
        success: false,
        error: Some("execution broken off"@),
    }
}

fn jobs_of(lines: Vec<String>) -> (jobs: Vec<Job>)
    ensures
        state::job_views(jobs@) == plain_jobs(text::texts(lines@)),
{
    let mut jobs: Vec<Job> = Vec::new();
    let ghost all = plain_jobs(text::texts(lines@));
    let mut i: usize = 0;
    while i < lines.len()
        invariant
            i <= lines@.len(),
            all == plain_jobs(text::texts(lines@)),
            state::job_views(jobs@) == all.take(i as int),
        decreases lines@.len() - i,
    {
        let ghost before = state::job_views(jobs@);
        let job = Job { alert: None, code: lines[i].clone() };
        let ghost j = job@;
        jobs.push(job);
        assert(state::job_views(jobs@) =~= before.push(j));
        assert(all[i as int] == j);
        i = i + 1;
        assert(all.take(i as int) =~= all.take(i - 1).push(all[i - 1]));
    }
    assert(all.take(i as int) =~= all);
    jobs
}

impl VM {
    fn go_on(&mut self, t: Time)
        ensures
            final(self)@ == moved(old(self)@, t),
    {
        reveal(moved);
        if self.pending.is_some() {
            self.resume(Reply::Fault(text("not available")), t);
        } else {
            self.step(t);
        }
    }

    fn run_alone(&mut self, depth: usize)
        ensures
            leads_to(old(self)@, final(self)@, depth as nat),
    {
        let ghost mut ts: Seq<Time> = Seq::empty();
        let mut left: u64 = u64::MAX;
        while left > 0 && !self.crashed && (self.pending.is_some() || self.frames.len() > depth)
            invariant
                ts.len() + left == u64::MAX,
                self@ == alone(old(self)@, ts),
                unfinished(old(self)@, ts, depth as nat),
            decreases left,
        {
            let ghost x = self@;
            assert(x.frames.len() == self.frames@.len());
            let t = self.read_time();
            self.go_on(t);
            proof {
                let us = ts.push(t);
                assert(us.drop_last() =~= ts);
                assert forall|k: int| 0 <= k < us.len() implies !finished(
                    alone(old(self)@, #[trigger] us.take(k)),
                    depth as nat,
                ) by {
                    if k == ts.len() {
                        assert(us.take(k) =~= ts);
                    } else {
                        assert(us.take(k) =~= ts.take(k));
                    }
                }
                ts = us;
            }
            left = left - 1;
        }
        assert(self@ == alone(old(self)@, ts));
        assert(self@.frames.len() == self.frames@.len());
    }

    /// Interprets a line without a host: words that need one are refused.
    pub fn interpret_line(&mut self, line: &str)
        ensures
            leads_to(
                base::lined(old(self)@, line@),
                final(self)@,
                old(self)@.frames.len(),
            ),
            upkeep::kept(old(self)@.frames, final(self)@.frames),
    {
        let depth = self.frames.len();
        let ghost v = self@;
        self.begin_line(line);
        let ghost b = self@;
        self.run_alone(depth);
        proof {
            reveal(base::lined);
            reveal(base::framed);
            law_alone_keeps_frames(b, self@, depth as nat);
            assert(b.frames.take(depth as int) =~= v.frames);
        }
    }

    pub(crate) fn set_output(&mut self, o: Option<String>)
        ensures
            final(self)@ == with_output(old(self)@, text::opt_text(o)),
    {
        reveal(with_output);
        self.output_buffer = o;
    }

    /// Begins to run the lines of a text.
    pub fn begin_script(&mut self, input: &str)
        ensures
            final(self)@ == scripted(old(self)@, input@),
    {
        let jobs = jobs_of(split_lines(input));
        self.enter(Frame::Jobs { jobs, next: 0, heal: false });
    }

    /// Begins to evaluate the lines of a text with the output captured.
    pub fn begin_eval(&mut self, input: &str)
        ensures
            final(self)@ == evaluating(old(self)@, input@),
    {
        let empty = String::new();
        assert(empty@ =~= Seq::<char>::empty());
        self.set_output(Some(empty));
        self.begin_script(input);
    }

    /// Ends the capture of output, and hands out what was captured.
    pub fn take_output(&mut self) -> (s: String)
        ensures
            s@ == (match old(self)@.output {
                Some(x) => x,
                None => Seq::empty(),
            }),
            final(self)@ == with_output(old(self)@, None),
    {
        reveal(with_output);
        match self.output_buffer.take() {
            Some(s) => s,
            None => String::new(),
        }
    }

    /// Evaluates Forth code without a host, and returns the captured output.
    pub fn eval(&mut self, input: &str) -> (out: String)
        ensures
            exists|w: VmV|
                {
                    &&& #[trigger] leads_to(
                        evaluating(old(self)@, input@),
                        w,
                        old(self)@.frames.len(),
                    )
                    &&& out@ == (match w.output {
                        Some(s) => s,
                        None => Seq::empty(),
                    })
                    &&& final(self)@ == with_output(w, None)
                },
            upkeep::kept(old(self)@.frames, final(self)@.frames),
    {
        let depth = self.frames.len();
        let ghost v = self@;
        self.begin_eval(input);
        let ghost b = self@;
        self.run_alone(depth);
        let ghost w = self@;
        proof {
            reveal(with_output);
            reveal(base::framed);
            law_alone_keeps_frames(b, w, depth as nat);
            assert(b.frames.take(depth as int) =~= v.frames);
        }
        let out = self.take_output();
        assert(leads_to(evaluating(old(self)@, input@), w, old(self)@.frames.len()));
        out
    }

    /// Loads the prelude without a host. Nothing is said about unknown words in it.
    pub fn load_prelude(&mut self)
        ensures
            leads_to(loading(old(self)@), final(self)@, old(self)@.frames.len()),
            upkeep::kept(old(self)@.frames, final(self)@.frames),
    {
        let depth = self.frames.len();
        let ghost v = self@;
        self.begin_prelude();
        let ghost b = self@;
        self.run_alone(depth);
        proof {
            reveal(machine::with_silent);
            reveal(base::framed);
            law_alone_keeps_frames(b, self@, depth as nat);
            assert(b.frames.take(depth as int) =~= v.frames);
        }
    }

    /// Begins to load the prelude.
    pub fn begin_prelude(&mut self)
        ensures
            final(self)@ == loading(old(self)@),
    {
        let silent = self.silent;
        self.set_silent(true);
        let lines = split_lines(prelude());
        self.enter(Frame::Prelude { lines, next: 0, silent });
    }

    /// Runs code in the sandbox without a host.
    pub fn execute_sandbox(&mut self, code: &str) -> (r: TaskResult)
        ensures
            exists|t: Time, w: VmV|
                {
                    &&& #[trigger] leads_to(
                        #[trigger] sandbox::confined(
                            machine::with_result(old(self)@, None),
                            code@,
                            AfterV::Return,
                            t,
                        ),
                        w,
                        old(self)@.frames.len(),
                    )
                    &&& r@ == (match w.result {
                        Some(x) => x,
                        None => broken(),
                    })
                    &&& final(self)@ == machine::with_result(w, None)
                },
            !final(self)@.crashed && final(self)@.frames.len() <= old(self)@.frames.len()
                ==> laws::untouched(old(self)@, final(self)@),
    {
        let depth = self.frames.len();
        let t = self.read_time();
        self.set_result(None);
        let ghost v = self@;
        self.begin_sandbox(code, After::Return, t);
        self.run_alone(depth);
        let ghost w = self@;
        assert(leads_to(
            sandbox::confined(v, code@, AfterV::Return, t),
            w,
            old(self)@.frames.len(),
        ));
        proof {
            reveal(machine::with_result);
            if !w.crashed && w.frames.len() <= v.frames.len() {
                law_run_isolated(v, code@, t, w);
            }
        }
        let r = self.take_result();
        match r {
            Some(r) => r,
            None => TaskResult {
                stack_snapshot: Vec::new(),
                output: String::new(),
                success: false,
                error: Some(text("execution broken off")),
            },
        }
    }

    fn take_result(&mut self) -> (r: Option<TaskResult>)
        ensures
            goals::opt_result(r) == old(self)@.result,
            final(self)@ == machine::with_result(old(self)@, None),
    {
        reveal(machine::with_result);
        self.last_result.take()
    }

    /// The top of the stack.
    pub fn stack_top(&self) -> (x: Option<Cell>)
        ensures
            x == (if self@.stack.len() == 0 {
                None
            } else {
                Some(self@.stack.last())
            }),
    {
        let n = self.stack.len();
        if n == 0 {
            None
        } else {
            Some(self.stack[n - 1])
        }
    }
}

} // verus!
