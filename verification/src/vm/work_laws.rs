//! How a machine goes through work of several steps.

use crate::features::monitor;
use crate::features::monitor::{AlertV, MonV};
use crate::spawn;
use crate::types::Op;
use crate::vm::base;
use crate::vm::checks;
use crate::vm::evolve;
use crate::vm::family;
use crate::vm::host;
use crate::vm::machine;
use crate::vm::ops;
use crate::vm::run;
use crate::vm::sandbox;
use crate::vm::state::{
    AfterChecks, AfterV, FrameV, PackingV, Purpose, ReplyV, RequestV, SavedV, Time, VmV,
};
use vstd::prelude::*;
use vstd::utf8::*;

verus! {

// ---------------------------------------------------------------------------
// Watching
// ---------------------------------------------------------------------------

/// Every watch that is due is probed, one behind the other, from the moment on at which its turn
/// comes; one that is gone is passed over.
pub proof fn law_due_watches_are_probed(
    v: VmV,
    ids: Seq<u32>,
    next: usize,
    after: AfterChecks,
    i: int,
    t: Time,
)
    requires
        next < ids.len() <= 0x7FFF_FFFF,
        0 <= i < v.monitor.watches.len(),
        forall|j: int|
            0 <= j < i ==> (#[trigger] v.monitor.watches[j]).id != v.monitor.watches[i].id,
        v.monitor.watches[i].id == ids[next as int],
    ensures
        ({
            let w = checks::check_begun(v, ids, next, after, t);
            &&& w.pending == Some(
                RequestV::Probe {
                    watch: ids[next as int],
                    kind: v.monitor.watches[i].kind,
                    start: t.now,
                },
            )
            &&& w.frames == v.frames.push(
                FrameV::Checks { ids, next: (next + 1) as usize, after },
            )
            &&& w.monitor == v.monitor
        }),
{
    reveal(checks::check_begun);
    reveal(base::framed);
    reveal(base::asked);
    crate::features::monitor_laws::lemma_watch_slot(v.monitor.watches, i);
}

/// When the last watch has been probed, nothing more is done, or the handlers of open alerts are run,
/// or what is scheduled.
pub proof fn law_after_the_checks(v: VmV, ids: Seq<u32>, next: usize, t: Time)
    requires
        next >= ids.len(),
    ensures
        checks::check_begun(v, ids, next, AfterChecks::Nothing, t) == v,
        checks::check_begun(v, ids, next, AfterChecks::Heal, t).frames == v.frames.push(
            FrameV::Jobs {
                jobs: checks::handlers(v.monitor, v.monitor.alerts, true),
                next: 0,
                heal: true,
            },
        ),
        ({
            let w = checks::check_begun(v, ids, next, AfterChecks::Schedules, t);
            let due = monitor::due_codes(v.monitor.schedules, t.now, t.epoch / 1000);
            &&& w.frames.len() == v.frames.len() + 1
            &&& w.frames.last() matches FrameV::Jobs { jobs, next: n, heal } && n == 0 && !heal
                && jobs.len() == due.len() && forall|k: int|
                0 <= k < due.len() ==> (#[trigger] jobs[k]).1 == due[k].1
            &&& w.monitor.schedules == monitor::run_scheds(
                v.monitor.schedules,
                t.now,
                t.epoch / 1000,
            )
            &&& w.monitor.watches == v.monitor.watches && w.monitor.alerts == v.monitor.alerts
        }),
{
    reveal(checks::check_begun);
    reveal(checks::handling);
    reveal(checks::scheduled);
    reveal(ops::with_monitor);
    reveal(base::framed);
}

/// Looking after the watches is looking after those that are due.
pub proof fn law_checks_begin(v: VmV, t: Time)
    ensures
        ({
            let ids = monitor::due_ids(v.monitor.watches, t.now);
            let f = |a: AfterChecks| v.frames.push(FrameV::Checks { ids, next: 0, after: a });
            &&& checks::p_check_watches(v, t).frames == f(AfterChecks::Nothing)
            &&& checks::p_heal(v, t).frames == f(AfterChecks::Heal)
            &&& checks::monitor_ticked(v, t).frames == f(AfterChecks::Schedules)
            &&& checks::p_heal(v, t).stack == v.stack
        }),
{
    reveal(checks::p_check_watches);
    reveal(checks::p_heal);
    reveal(checks::monitor_ticked);
    reveal(base::framed);
    reveal(base::emit);
}

/// Jobs are run one behind the other, each once: the next line is the code of the next job.
pub proof fn law_jobs_run_in_order(
    v: VmV,
    jobs: Seq<(Option<u32>, Seq<char>)>,
    next: usize,
    heal: bool,
)
    requires
        jobs.len() <= 0x7FFF_FFFF,
    ensures
        next < jobs.len() ==> ({
            let w = checks::job_begun(v, jobs, next, heal);
            &&& w.input == jobs[next as int].1 && w.pos == 0
            &&& w.frames == v.frames.push(
                FrameV::Jobs { jobs, next: (next + 1) as usize, heal },
            ).push(FrameV::Line)
            &&& w.stack == v.stack
        }),
        next >= jobs.len() ==> checks::job_begun(v, jobs, next, heal).frames == v.frames,
        next >= jobs.len() && !heal ==> checks::job_begun(v, jobs, next, heal) == v,
{
    reveal(checks::job_begun);
    reveal(base::lined);
    reveal(base::framed);
    reveal(base::emit);
}

/// A new alert runs the handler of its watch, if it has one, and pays for it.
pub proof fn law_alert_runs_its_handler(v: VmV, a: AlertV)
    ensures
        checks::handler_of(v.monitor, a.watch_id).is_none() ==> checks::alerted(v, a).frames
            == v.frames,
        checks::handler_of(v.monitor, a.watch_id) matches Some(code) ==> checks::alerted(
            v,
            a,
        ).frames == v.frames.push(FrameV::Bonus).push(FrameV::Line) && checks::alerted(v, a).input
            == code && checks::alerted(v, a).pos == 0,
        checks::rewarded(v).monitor == v.monitor,
{
    reveal(checks::alerted);
    reveal(checks::rewarded);
    reveal(base::lined);
    reveal(base::framed);
    reveal(base::emit);
}

/// The handler of a watch is the code that was set for it.
pub proof fn law_handler_of_a_watch(m: MonV, i: int, code: Seq<char>)
    requires
        0 <= i < m.watches.len(),
        forall|j: int| 0 <= j < i ==> (#[trigger] m.watches[j]).id != m.watches[i].id,
    ensures
        checks::handler_of(m, m.watches[i].id) == m.watches[i].alert_handler,
{
    crate::features::monitor_laws::lemma_watch_slot(m.watches, i);
}

// ---------------------------------------------------------------------------
// Code
// ---------------------------------------------------------------------------

/// Code that runs apart is run line by line, each line once, as long as its time is not over and the
/// machine runs; then the machine is as it was, and what came of it is made use of.
pub proof fn law_lines_run_in_order(
    v: VmV,
    saved: SavedV,
    lines: Seq<Seq<char>>,
    next: usize,
    after: AfterV,
    t: Time,
)
    requires
        lines.len() <= 0x7FFF_FFFF,
    ensures
        ({
            let w = machine::sandbox_stepped(v, saved, lines, next, after, t);
            let more = next < lines.len() && (next == 0 || (!v.timed_out && v.running));
            &&& more ==> {
                &&& w.input == lines[next as int] && w.pos == 0
                &&& w.frames == v.frames.push(
                    FrameV::Sandbox { saved, lines, next: (next + 1) as usize, after },
                ).push(FrameV::Line)
                &&& w.stack == v.stack && w.deadline == v.deadline
            }
            &&& !more && after == AfterV::Return ==> {
                &&& w.stack == saved.stack && w.output == saved.output && w.running
                &&& w.result matches Some(r) && r.success == !v.timed_out && r.stack == v.stack
                &&& w.frames == v.frames
            }
        }),
{
    reveal(machine::sandbox_stepped);
    reveal(machine::followed);
    reveal(machine::with_result);
    reveal(sandbox::restored);
    reveal(base::lined);
    reveal(base::framed);
}

/// The prelude is read line by line, each line once; then the machine is as talkative as before.
pub proof fn law_prelude_is_read(v: VmV, lines: Seq<Seq<char>>, next: usize, silent: bool)
    requires
        lines.len() <= 0x7FFF_FFFF,
    ensures
        next < lines.len() ==> ({
            let w = machine::prelude_stepped(v, lines, next, silent);
            &&& w.input == lines[next as int] && w.pos == 0
            &&& w.frames == v.frames.push(
                FrameV::Prelude { lines, next: (next + 1) as usize, silent },
            ).push(FrameV::Line)
        }),
        next >= lines.len() ==> machine::prelude_stepped(v, lines, next, silent) == (VmV {
            silent,
            ..v
        }),
{
    reveal(machine::prelude_stepped);
    reveal(machine::with_silent);
    reveal(base::lined);
    reveal(base::framed);
}

/// A body ends where its instructions end. It also ends when time is over, which is the case after
/// the deadline and not before.
pub proof fn law_body_ends_in_time(v: VmV, body: Seq<Op>, ip: usize, d: u64, t: Time)
    requires
        v.deadline == Some(d),
        !v.timed_out,
    ensures
        ip >= body.len() ==> machine::body_stepped(v, body, ip, t) == v,
        ip < body.len() && t.now > d ==> machine::body_stepped(v, body, ip, t) == (VmV {
            timed_out: true,
            ..v
        }),
        ip < body.len() && t.now <= d ==> machine::body_stepped(v, body, ip, t)
            == machine::performed(v, body, ip, t),
{
    reveal(machine::body_stepped);
    reveal(machine::overdue);
}

// ---------------------------------------------------------------------------
// Packages
// ---------------------------------------------------------------------------

/// PACKAGE-SIZE pushes how many bytes a package has that holds the program, the state and the
/// prelude; where the program cannot be read it pushes 0, and PACKAGE pushes two zeros.
pub proof fn law_package_size(v: VmV, binary: Seq<u8>, state: Seq<u8>, e: Seq<char>)
    requires
        family::packed(binary, state).len() <= 0x7FFF_FFFF,
    ensures
        family::binary_read(v, PackingV::Size, state, ReplyV::Bytes(binary)).stack == v.stack.push(
            family::packed(binary, state).len() as i64,
        ),
        family::binary_read(v, PackingV::Size, state, ReplyV::Fault(e)).stack == v.stack.push(
            0i64,
        ),
        family::binary_read(v, PackingV::Store, state, ReplyV::Fault(e)).stack == v.stack.push(
            0i64,
        ).push(0i64),
        family::binary_read(v, PackingV::Spawn, state, ReplyV::Fault(e)).stack == v.stack,
{
    reveal(family::binary_read);
    reveal(family::size_told);
    reveal(base::pushed);
    reveal(base::emit);
    crate::vm::agent_laws::law_package_holds_all(
        binary,
        state,
        encode_utf8(crate::prelude::PRELUDE@),
    );
}

/// A package that was sent for a child, or that came in, becomes a child; one that is sent goes to
/// its address as it is.
pub proof fn law_packages_go_where_they_should(
    v: VmV,
    binary: Seq<u8>,
    state: Seq<u8>,
    addr: Seq<char>,
)
    ensures
        family::binary_read(v, PackingV::Send { addr }, state, ReplyV::Bytes(binary)).pending
            == Some(
            RequestV::SendPackage {
                addr,
                package: spawn::package(
                    binary,
                    state,
                    encode_utf8(crate::prelude::PRELUDE@),
                ),
            },
        ),
        family::binary_read(v, PackingV::Spawn, state, ReplyV::Bytes(binary)).pending matches Some(
            RequestV::SpawnPackage { package, arrived, .. },
        ) && package == family::packed(binary, state) && !arrived,
        family::package_arrived(v, ReplyV::Bytes(binary)).pending matches Some(
            RequestV::SpawnPackage { package, arrived, .. },
        ) && package == binary && arrived,
        family::packing(v, PackingV::Spawn).pending == Some(
            RequestV::Binary { purpose: PackingV::Spawn, state: sandbox::snapshot_bytes(v) },
        ),
{
    reveal(family::binary_read);
    reveal(family::child_wanted);
    reveal(family::package_arrived);
    reveal(family::packing);
    reveal(base::asked);
}

// ---------------------------------------------------------------------------
// Changes
// ---------------------------------------------------------------------------

/// A change gives one word another body, and the record of it holds the body that the word had.
pub proof fn law_change_is_recorded(
    v: VmV,
    index: usize,
    body: Seq<Op>,
    strategy: Seq<char>,
    description: Seq<char>,
)
    ensures
        index >= v.dict.len() ==> evolve::changed(
            v,
            ReplyV::Changed { index, body, strategy, description },
        ).is_none(),
        index < v.dict.len() ==> (evolve::changed(
            v,
            ReplyV::Changed { index, body, strategy, description },
        ) matches Some((r, w)) && r.index == index && r.old_body == v.dict[index as int].body
            && r.name == v.dict[index as int].name && w.dict[index as int].body == body
            && w.dict[index as int].name == v.dict[index as int].name && w.dict.len()
            == v.dict.len() && forall|j: int|
            0 <= j < v.dict.len() && j != index ==> #[trigger] w.dict[j] == v.dict[j]),
{
    reveal(evolve::changed);
    reveal(evolve::with_body);
}

/// The benchmark is the code that was set last.
pub proof fn law_benchmark_is_set(v: VmV, code: Seq<char>)
    ensures
        evolve::benchmark_set(v, code).fitness.benchmark_code == Some(code),
        evolve::benchmark_set(v, code).fitness.score == v.fitness.score,
        evolve::benchmark_set(v, code).stack == v.stack,
        evolve::p_mutate_rand(v).pending matches Some(RequestV::Mutate { index, purpose, .. })
            && index.is_none() && purpose == Purpose::Tell,
        evolve::p_mutate_random(v).pending matches Some(RequestV::Mutate { index, purpose, .. })
            && index.is_none() && purpose == Purpose::Flag,
{
    reveal(evolve::benchmark_set);
    reveal(evolve::with_fitness);
    reveal(evolve::p_mutate_rand);
    reveal(evolve::p_mutate_random);
    reveal(base::asked);
    reveal(base::emit);
}

// ---------------------------------------------------------------------------
// Limits
// ---------------------------------------------------------------------------

/// A machine starts empty, with 65536 cells of memory of which the first is taken, ten seconds for
/// code that runs apart and a save every five tasks; nothing that acts by itself is on, and the shell
/// is closed. It may have ten children, one every 30 seconds, evolves after five tasks and keeps 60
/// outcomes of each watch.
pub proof fn law_machine_starts_empty()
    ensures
        ({
            let v = run::blank();
            &&& v.stack.len() == 0 && v.rstack.len() == 0 && v.dict.len() == 0
            &&& v.memory.len() == 65536 && v.here == 1
            &&& forall|i: int| 0 <= i < 65536 ==> #[trigger] v.memory[i] == 0
            &&& v.running && !v.compiling && !v.silent && !v.timed_out && !v.crashed
            &&& v.timeout == 10 && v.save_every == 5 && v.since_save == 0
            &&& !v.auto_claim && !v.auto_save && !v.sandbox && !v.shell
            &&& v.mesh.is_none() && v.node_id.is_none() && v.pending.is_none()
            &&& v.fitness.score == 0 && v.fitness.evolve_interval == 5 && !v.fitness.auto_evolve
            &&& v.spawn.max_children == 10 && v.spawn.spawn_cooldown_secs == 30
            &&& v.spawn.accept_replicate && !v.spawn.quarantine && v.spawn.generation == 0
            &&& v.spawn.children.len() == 0 && v.spawn.last_spawn.is_none()
            &&& v.monitor.watches.len() == 0 && v.monitor.next_id == 1
            &&& v.monitor.max_history == 60
        }),
{
}

/// What is kept of what happened: the last 20 events, the last 100 answers to requests, the last 50
/// operations on the host. The scratch area starts at 64512.
pub proof fn law_logs_are_bounded(
    s: Seq<Seq<char>>,
    e: Seq<char>,
    l: Seq<crate::mesh::node::LogV>,
    x: crate::mesh::node::LogV,
)
    ensures
        s.len() < 20 ==> crate::mesh::node::with_event(s, e) == s.push(e),
        s.len() == 20 ==> seq![s[0]] + crate::mesh::node::with_event(s, e) == s.push(e),
        l.len() < 100 ==> crate::mesh::consent::with_entry(l, x) == l.push(x),
        l.len() == 100 ==> seq![l[0]] + crate::mesh::consent::with_entry(l, x) == l.push(x),
        s.len() < 50 ==> host::with_io(s, e) == s.push(e),
        s.len() == 50 ==> seq![s[0]] + host::with_io(s, e) == s.push(e),
        crate::types::PAD == 64512,
{
    assert(s.len() > 0 ==> seq![s[0]] + s.push(e).skip(1) =~= s.push(e));
    assert(l.len() > 0 ==> seq![l[0]] + l.push(x).skip(1) =~= l.push(x));
}

} // verus!
