//! The words that tell of a unit, and those that change what it is.

use crate::features::monitor;
use crate::features::monitor::{MonV, StatusV};
use crate::features::monitor_laws;
use crate::goal_laws;
use crate::goals;
use crate::goals::{GoalStatus, GoalV, TaskStatus, TaskV};
use crate::mesh::message;
use crate::mesh::node::{MeshV, PacketV};
use crate::text;
use crate::vm::base;
use crate::vm::family;
use crate::vm::keep;
use crate::vm::net;
use crate::vm::ops;
use crate::vm::sandbox;
use crate::vm::state::{FrameV, ReplyV, RequestV, Time, VmV};
use crate::vm::word_laws::on;
use crate::vm::words;
use vstd::prelude::*;

verus! {

// ---------------------------------------------------------------------------
// Counting
// ---------------------------------------------------------------------------

/// The words that count push how many there are of what they name.
pub proof fn law_counting_words(v: VmV, m: MeshV)
    requires
        v.mesh == Some(m),
        v.spawn.children.len() <= 0x7FFF_FFFF,
        v.monitor.alerts.len() <= 0x7FFF_FFFF,
        v.monitor.watches.len() <= 0x7FFF_FFFF,
        m.peers.len() <= 0x7FFF_FFFF,
    ensures
        family::p_child_count(v) == on(v, v.stack.push(v.spawn.children.len() as i64)),
        family::p_generation(v) == on(v, v.stack.push(v.spawn.generation as i64)),
        ops::p_alert_count(v) == on(v, v.stack.push(v.monitor.alerts.len() as i64)),
        ops::p_watch_count(v) == on(v, v.stack.push(v.monitor.watches.len() as i64)),
        ops::p_peer_count(v) == on(v, v.stack.push(m.peers.len() as i64)),
        net::p_capacity(v) == on(v, v.stack.push(m.capacity as i64)),
        net::p_load(v) == on(v, v.stack.push(m.load as i64)),
        ops::p_health_port(v) == on(v, v.stack.push(m.repl_port as i64)),
{
    reveal(family::p_child_count);
    reveal(family::p_generation);
    reveal(ops::p_alert_count);
    reveal(ops::p_watch_count);
    reveal(ops::p_peer_count);
    reveal(net::p_capacity);
    reveal(net::p_load);
    reveal(ops::p_health_port);
    reveal(base::pushed);
}

/// GOAL-COUNT and TASK-COUNT push how many there are in all, then how many of each status, in the
/// order of their lives; the last four add up to the first.
pub proof fn law_goals_and_tasks_are_told(v: VmV, m: MeshV)
    requires
        v.mesh == Some(m),
        m.goals.goals.len() <= 0x7FFF_FFFF,
        m.goals.tasks.len() <= 0x7FFF_FFFF,
    ensures
        ({
            let g = m.goals.goals;
            let s = net::p_goal_count(v).stack;
            let n = v.stack.len() as int;
            &&& s.len() == n + 5 && s.take(n) == v.stack
            &&& s[n] == g.len()
            &&& s[n + 1] == g.filter(|x: GoalV| x.status == GoalStatus::Pending).len()
            &&& s[n + 2] == g.filter(|x: GoalV| x.status == GoalStatus::Active).len()
            &&& s[n + 3] == g.filter(|x: GoalV| x.status == GoalStatus::Completed).len()
            &&& s[n + 4] == g.filter(|x: GoalV| x.status == GoalStatus::Failed).len()
            &&& s[n] == s[n + 1] + s[n + 2] + s[n + 3] + s[n + 4]
        }),
        ({
            let g = m.goals.tasks;
            let s = net::p_task_count(v).stack;
            let n = v.stack.len() as int;
            &&& s.len() == n + 5 && s.take(n) == v.stack
            &&& s[n] == g.len()
            &&& s[n + 1] == g.filter(|x: TaskV| x.status == TaskStatus::Waiting).len()
            &&& s[n + 2] == g.filter(|x: TaskV| x.status == TaskStatus::Running).len()
            &&& s[n + 3] == g.filter(|x: TaskV| x.status == TaskStatus::Done).len()
            &&& s[n + 4] == g.filter(|x: TaskV| x.status == TaskStatus::Failed).len()
            &&& s[n] == s[n + 1] + s[n + 2] + s[n + 3] + s[n + 4]
        }),
{
    reveal(net::p_goal_count);
    reveal(net::p_task_count);
    reveal(base::pushed);
    goal_laws::law_goals_are_counted(m.goals.goals);
    goal_laws::law_tasks_are_counted(m.goals.tasks);
    let n = v.stack.len() as int;
    assert(net::p_goal_count(v).stack.take(n) =~= v.stack);
    assert(net::p_task_count(v).stack.take(n) =~= v.stack);
}

/// UPTIME ( watch -- ) has the share of the outcomes worked out that were well: all of them if there
/// are none yet, none of them if there is no such watch.
pub proof fn law_uptime_word(v: VmV, s: Seq<i64>, i: int)
    requires
        0 <= i < v.monitor.watches.len(),
        forall|j: int|
            0 <= j < i ==> (#[trigger] v.monitor.watches[j]).id != v.monitor.watches[i].id,
        v.monitor.watches[i].history.len() <= 0x7FFF_FFFF,
    ensures
        ({
            let w = v.monitor.watches[i];
            let r = ops::p_uptime(on(v, s.push(w.id as i64)));
            &&& r.stack == s
            &&& w.history.len() == 0 ==> r.pending == Some(
                RequestV::Percent { watch: w.id, good: 1, total: 1 },
            )
            &&& w.history.len() > 0 ==> r.pending == Some(
                RequestV::Percent {
                    watch: w.id,
                    good: w.history.filter(|x: StatusV| x.ok).len() as usize,
                    total: w.history.len() as usize,
                },
            )
        }),
{
    reveal(ops::p_uptime);
    reveal(base::popped);
    reveal(base::asked);
    let w = v.monitor.watches[i];
    let id = w.id;
    assert((id as i64) as u32 == id);
    assert(s.push(id as i64).drop_last() =~= s);
    monitor_laws::lemma_watch_slot(v.monitor.watches, i);
    monitor_laws::law_uptime_counts_the_well(w.history);
}

/// HEALTH pushes the health of the unit, from 0 to 100.
pub proof fn law_health_word(v: VmV, m: MeshV)
    requires
        v.mesh == Some(m),
    ensures
        ops::p_health(v) == on(
            v,
            v.stack.push(
                monitor::health(v.monitor, m.peers.len() as int, v.fitness.score as int) as i64,
            ),
        ),
        ops::p_health(v).stack.last() >= 0,
        ops::p_health(v).stack.last() <= 100,
{
    reveal(ops::p_health);
    reveal(base::pushed);
    monitor_laws::law_health(v.monitor, m.peers.len() as int, v.fitness.score as int);
}

// ---------------------------------------------------------------------------
// Output
// ---------------------------------------------------------------------------

/// A machine that keeps its output, with so much of it.
pub open spec fn told(v: VmV, stack: Seq<i64>, s: Seq<char>) -> VmV {
    VmV { stack, output: Some(s), ..v }
}

/// The dot word ( n -- ) puts out a number and a space, EMIT ( code -- ) one character, TYPE
/// ( addr n -- ) the characters of n cells. What is below stays, and so does what has been put out.
pub proof fn law_output_words(v: VmV, s: Seq<i64>, b: Seq<char>, n: i64, addr: i64)
    ensures
        words::p_dot(told(v, s.push(n), b)) == told(v, s, b + text::dec_int(n as int) + " "@),
        0 <= n < 0xD800 ==> words::p_emit(told(v, s.push(n), b)) == told(v, s, b.push(n as char)),
        words::p_dot_s(told(v, s, b)).stack == s,
        0 <= addr && 0 <= n && addr + n <= v.memory.len() && v.memory.len() <= 65536 ==> ({
            let w = net::p_type(told(v, s.push(addr).push(n), b));
            &&& w.stack == s
            &&& w.output.is_some() && w.output->0.len() == b.len() + n
            &&& w.output->0.take(b.len() as int) == b
            &&& forall|i: int|
                0 <= i < n && 0 <= v.memory[addr + i] < 128 ==> #[trigger] w.output->0[b.len() + i]
                    == v.memory[addr + i] as char
        }),
{
    reveal(words::p_dot);
    reveal(words::p_emit);
    reveal(words::p_dot_s);
    reveal(net::p_type);
    reveal(base::popped);
    reveal(base::emit);
    assert(s.push(n).drop_last() =~= s);
    assert(s.push(addr).push(n).drop_last() =~= s.push(addr));
    assert(s.push(addr).drop_last() =~= s);
    assert(b + (text::dec_int(n as int) + " "@) =~= b + text::dec_int(n as int) + " "@);
    if 0 <= n < 0xD800 {
        assert((n as u32) as char == n as char);
        assert(b + text::one(n as char) =~= b.push(n as char));
    }
    if 0 <= addr && 0 <= n && addr + n <= v.memory.len() && v.memory.len() <= 65536 {
        assert(addr as usize == addr && n as usize == n);
        crate::vm::agent_laws::law_bytes_of_memory(v.memory, addr as usize, n as int);
        let w = net::p_type(told(v, s.push(addr).push(n), b));
        assert(w.output->0.take(b.len() as int) =~= b);
        assert forall|i: int|
            0 <= i < n && 0 <= v.memory[addr + i] < 128 implies #[trigger] w.output->0[b.len() + i]
            == v.memory[addr + i] as char by {
            assert(v.memory[addr + i] as u8 == v.memory[addr + i]);
        }
    }
}

// ---------------------------------------------------------------------------
// Watches, alerts and schedules
// ---------------------------------------------------------------------------

/// UNWATCH, UNSCHED and ACK ( n -- ) are about what has that number: the watch and the schedule go,
/// the alert is marked, and all others stay as they are.
pub proof fn law_numbered_words(v: VmV, s: Seq<i64>, n: u32)
    ensures
        ({
            let m = v.monitor;
            let u = ops::p_unwatch(on(v, s.push(n as i64)));
            let c = ops::p_unsched(on(v, s.push(n as i64)));
            let a = ops::p_ack(on(v, s.push(n as i64)));
            &&& u.stack == s && c.stack == s && a.stack == s
            &&& u.monitor == monitor::without_watch(m, n)
            &&& c.monitor == monitor::without_sched(m, n)
            &&& a.monitor == monitor::acknowledged(m, n)
            &&& u.monitor.schedules == m.schedules && u.monitor.alerts == m.alerts
            &&& c.monitor.watches == m.watches && c.monitor.alerts == m.alerts
            &&& a.monitor.watches == m.watches && a.monitor.schedules == m.schedules
        }),
{
    reveal(ops::p_unwatch);
    reveal(ops::p_unsched);
    reveal(ops::p_ack);
    reveal(ops::with_monitor);
    reveal(base::popped);
    reveal(base::emit);
    assert((n as i64) as u32 == n);
    assert(s.push(n as i64).drop_last() =~= s);
}

/// A schedule that is dropped is gone, and every other stays.
pub proof fn law_dropped_schedule_is_gone(m: MonV, i: int)
    requires
        0 <= i < m.schedules.len(),
        forall|j: int|
            0 <= j < i ==> (#[trigger] m.schedules[j]).id != m.schedules[i].id,
    ensures
        monitor::without_sched(m, m.schedules[i].id) == (MonV {
            schedules: m.schedules.remove(i),
            ..m
        }),
{
    crate::order::lemma_at(monitor::sched_keys(m.schedules), m.schedules[i].id as u64);
    assert(monitor::sched_keys(m.schedules)[i] == m.schedules[i].id as u64);
    let k = monitor::sched_at(m.schedules, m.schedules[i].id);
    if k < i {
        assert(monitor::sched_keys(m.schedules)[k] == m.schedules[k].id as u64);
    }
}

/// EVERY ( seconds -- id ) schedules the rest of the line, at least every second, and pushes the
/// number of the schedule; without code it schedules nothing.
pub proof fn law_every_word(v: VmV, s: Seq<i64>, every: i64)
    requires
        monitor_laws::numbered(v.monitor),
        v.monitor.next_id < u32::MAX,
        every >= 0,
        v.pos <= v.input.len() <= 0x7FFF_FFFF,
    ensures
        ({
            let code = text::trim(v.input.skip(v.pos as int));
            let w = ops::p_every(on(v, s.push(every)));
            let x = w.monitor.schedules.last();
            &&& w.pos == v.input.len()
            &&& code.len() == 0 ==> w.stack == s && w.monitor == v.monitor
            &&& code.len() > 0 ==> {
                &&& w.stack == s.push(v.monitor.next_id as i64)
                &&& w.monitor.schedules == v.monitor.schedules.push(x)
                &&& x.code == code && x.id == v.monitor.next_id
                &&& x.interval_secs == (if every == 0 {
                    1
                } else {
                    every as int
                })
            }
        }),
{
    reveal(ops::p_every);
    reveal(ops::drained);
    reveal(ops::with_monitor);
    reveal(base::popped);
    reveal(base::pushed);
    reveal(base::emit);
    assert(s.push(every).drop_last() =~= s);
    let code = text::trim(v.input.skip(v.pos as int));
    assert(v.input.skip(v.pos as int) =~= v.input.subrange(v.pos as int, v.input.len() as int));
    monitor_laws::law_new_schedule(v.monitor, code, ops::interval(every as u64), 0, 0);
}

// ---------------------------------------------------------------------------
// Keeping
// ---------------------------------------------------------------------------

/// SAVE hands over the state of the machine, SNAPSHOT keeps it under the time, RESTORE asks for what
/// was kept under a number; all of it under the identity of the unit, and nothing without one.
pub proof fn law_keeping_words(v: VmV, s: Seq<i64>, n: i64, t: Time)
    ensures
        v.node_id matches Some(id) ==> {
            &&& keep::p_save(v).pending == Some(
                RequestV::SaveState { id, data: sandbox::snapshot_bytes(v), quiet: false },
            )
            &&& keep::p_load_state(v).pending == Some(RequestV::LoadState { id })
            &&& keep::p_snapshot(v, t).pending == Some(
                RequestV::SaveSnapshot {
                    id,
                    name: text::dec((t.epoch / 1000) as nat),
                    data: sandbox::snapshot_bytes(v),
                },
            )
            &&& keep::p_restore(on(v, s.push(n))).pending == Some(
                RequestV::LoadSnapshot { id, name: text::dec_int(n as int) },
            )
            &&& keep::p_restore(on(v, s.push(n))).stack == s
        },
        v.node_id.is_none() ==> {
            &&& keep::p_save(v).pending == v.pending
            &&& keep::p_load_state(v).pending == v.pending
            &&& keep::p_snapshot(v, t) == v
            &&& keep::p_restore(on(v, s.push(n))) == on(v, s)
        },
        keep::p_reset(v).pending == Some(RequestV::Forget { id: v.node_id }),
        keep::p_reidentify(v).pending == Some(RequestV::Reidentify { old: v.node_id }),
{
    reveal(keep::p_save);
    reveal(keep::p_load_state);
    reveal(keep::p_snapshot);
    reveal(keep::p_restore);
    reveal(keep::p_reset);
    reveal(keep::p_reidentify);
    reveal(base::popped);
    reveal(base::asked);
    reveal(base::emit);
    assert(s.push(n).drop_last() =~= s);
}

/// BYE and QUIT stop the machine. BYE saves first, without a word, if the machine has an identity and
/// saves by itself.
pub proof fn law_bye(v: VmV)
    ensures
        !keep::p_bye(v).running && !words::p_quit(v).running,
        keep::p_bye(v).stack == v.stack && keep::p_bye(v).dict == v.dict,
        words::p_quit(v) == (VmV { running: false, ..v }),
        v.auto_save && v.node_id.is_some() ==> keep::p_bye(v).pending == Some(
            RequestV::SaveState {
                id: v.node_id->0,
                data: sandbox::snapshot_bytes(v),
                quiet: true,
            },
        ),
        !v.auto_save || v.node_id.is_none() ==> keep::p_bye(v).pending == v.pending,
{
    reveal(keep::p_bye);
    reveal(keep::stopped);
    reveal(words::p_quit);
    reveal(base::asked);
}

/// A snapshot that comes back by its name brings back what a saved state does.
#[verifier::spinoff_prover]
#[verifier::rlimit(40)]
pub proof fn law_snapshot_is_a_saved_state(w: VmV, name: Seq<char>, data: Seq<u8>)
    ensures
        ({
            let a = keep::snapshot_loaded(w, name, ReplyV::Bytes(data));
            let b = keep::state_loaded(w, ReplyV::Bytes(data));
            &&& a.dict == b.dict && a.memory == b.memory && a.here == b.here
            &&& a.codes == b.codes && a.fitness == b.fitness && a.mesh == b.mesh
            &&& a.stack == w.stack && b.stack == w.stack
        }),
{
    reveal(keep::snapshot_loaded);
    reveal(keep::state_loaded);
    reveal(keep::snapshot_restored);
    reveal(keep::reloaded);
    reveal(net::with_mesh);
    reveal(base::emit);
}

/// A unit that is given another identity has it from then on.
pub proof fn law_new_identity(v: VmV, was: Option<Seq<u8>>, id: Seq<u8>)
    ensures
        keep::reidentified(v, was, ReplyV::Identity(id)).node_id == Some(id),
        keep::reidentified(v, was, ReplyV::Identity(id)).stack == v.stack,
{
    reveal(keep::reidentified);
    reveal(keep::with_id);
    reveal(base::emit);
}

// ---------------------------------------------------------------------------
// Children
// ---------------------------------------------------------------------------

/// SPAWN-N ( n -- ) spawns n times and then stops; KILL-CHILD ( pid -- ) asks for the end of that
/// process; MAX-CHILDREN ( n -- ) sets the limit.
pub proof fn law_family_words(v: VmV, s: Seq<i64>, n: i64, next: usize, count: usize, t: Time)
    requires
        0 <= n <= 0x7FFF_FFFF,
    ensures
        family::p_spawn_n(on(v, s.push(n))).stack == s,
        family::p_spawn_n(on(v, s.push(n))).frames == v.frames.push(
            FrameV::SpawnMany { next: 0, count: n as usize },
        ),
        next >= count ==> family::next_spawned(v, next, count, t) == v,
        next < count && next == 0 ==> family::next_spawned(v, next, count, t) == family::p_spawn(
            VmV { frames: v.frames.push(FrameV::SpawnMany { next: 1, count }), ..v },
            t,
        ),
        family::p_kill_child(on(v, s.push(n))).pending == Some(RequestV::Kill { pid: n as u32 }),
        family::p_kill_child(on(v, s.push(n))).stack == s,
        family::p_max_children(on(v, s.push(n))).spawn.max_children == n,
        family::p_max_children(on(v, s.push(n))).stack == s,
{
    reveal(family::p_spawn_n);
    reveal(family::next_spawned);
    reveal(family::p_kill_child);
    reveal(family::p_max_children);
    reveal(family::with_spawn);
    reveal(base::framed);
    reveal(base::popped);
    reveal(base::asked);
    reveal(base::emit);
    assert(s.push(n).drop_last() =~= s);
}

/// REPLICATE sends the whole state of the machine to every peer; its load is the number of its words.
pub proof fn law_replicate_word(v: VmV, m: MeshV)
    requires
        v.mesh == Some(m),
        v.dict.len() <= 0x7FFF_FFFF,
    ensures
        ({
            let w = net::p_replicate(v).mesh;
            &&& w.is_some() && w->0.load == v.dict.len()
            &&& w->0.outbox.len() == m.outbox.len() + m.peers.len()
            &&& forall|i: int|
                0 <= i < m.peers.len() ==> #[trigger] w->0.outbox[m.outbox.len() + i] == (PacketV {
                    to: m.peers[i].addr,
                    bytes: message::data_bytes(
                        m.id,
                        m.port,
                        crate::mesh::state::w_state(v.dict, v.memory, v.here, Some(m.goals)),
                    ),
                })
        }),
{
    reveal(net::p_replicate);
    reveal(net::with_mesh);
    reveal(base::printed);
}

} // verus!
