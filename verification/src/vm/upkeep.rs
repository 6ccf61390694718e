//! What every step of the machine keeps: the frames below the one at work, the size of memory, the
//! bound on the log of host words, the invariant of the node, and the bars of the sandbox.

use crate::features::fitness::FitV;
use crate::features::monitor::{AlertV, MonV};
use crate::features::ws_bridge::EventV;
use crate::goals;
use crate::goals::ResultV;
use crate::mesh::api;
use crate::mesh::laws;
use crate::mesh::node;
use crate::mesh::node::{MeshV, TrustLevel};
use crate::persist;
use crate::persist::SnapV;
use crate::spawn::SpawnV;
use crate::types::{Op, WordV, MEMORY_CELLS};
use crate::vm::base;
use crate::vm::bridge;
use crate::vm::checks;
use crate::vm::compile;
use crate::vm::dispatch;
use crate::vm::evolve;
use crate::vm::family;
use crate::vm::goal_words;
use crate::vm::host;
use crate::vm::host::IO_KEPT;
use crate::vm::keep;
use crate::vm::machine;
use crate::vm::net;
use crate::vm::net::Switch;
use crate::vm::ops;
use crate::vm::sandbox;
use crate::vm::state::{
    AfterV, ChangeV, FrameV, MutationClass, PackingV, Purpose, RecordV, ReplyV, RequestV,
    SavedV, ScoredV, Time, VmV,
};
use crate::vm::ticks;
use crate::vm::trials;
use crate::vm::words;
use crate::wire;
use vstd::prelude::*;

verus! {

// ---------------------------------------------------------------------------
// What is kept
// ---------------------------------------------------------------------------

/// True if frames still stand where they stood, perhaps below new ones.
pub open spec fn kept(u: Seq<FrameV>, w: Seq<FrameV>) -> bool {
    &&& u.len() <= w.len()
    &&& forall|i: int| 0 <= i < u.len() ==> #[trigger] w[i] == u[i]
}

/// True of a request that changes something outside the machine on behalf of a program.
pub open spec fn writes(q: Option<RequestV>) -> bool {
    match q {
        Some(RequestV::FileWrite { .. }) => true,
        Some(RequestV::FileDelete { .. }) => true,
        Some(RequestV::HttpPost { .. }) => true,
        Some(RequestV::Shell { .. }) => true,
        _ => false,
    }
}

/// True of a node that keeps its invariant, or of none.
#[verifier::opaque]
pub open spec fn whole(m: Option<MeshV>) -> bool {
    m matches Some(x) ==> laws::mesh_wf(x)
}

/// True of a machine whose memory has its size, whose log of host words its bound, and whose node
/// its invariant.
pub open spec fn sound(v: VmV) -> bool {
    v.memory.len() == MEMORY_CELLS && v.io_log.len() <= IO_KEPT && whole(v.mesh)
}

/// True if nothing that matters here has changed.
pub open spec fn same(u: VmV, w: VmV) -> bool {
    &&& w.frames == u.frames
    &&& w.pending == u.pending
    &&& w.sandbox == u.sandbox
    &&& w.io_log == u.io_log
    &&& w.memory.len() == u.memory.len()
    &&& w.mesh == u.mesh
}

/// True of a change that leaves the frames alone, keeps the machine sound, and wants nothing
/// written.
pub open spec fn tame(u: VmV, w: VmV) -> bool {
    &&& kept(u.frames, w.frames)
    &&& sound(u) ==> sound(w)
    &&& !writes(u.pending) ==> !writes(w.pending)
}

/// True of a change that is tame in the sandbox.
pub open spec fn barred(u: VmV, w: VmV) -> bool {
    &&& kept(u.frames, w.frames)
    &&& sound(u) ==> sound(w)
    &&& u.sandbox && !writes(u.pending) ==> !writes(w.pending)
}

// ---------------------------------------------------------------------------
// Single changes
// ---------------------------------------------------------------------------

broadcast proof fn same_emit(v: VmV, s: Seq<char>)
    ensures
        same(v, #[trigger] base::emit(v, s)),
{
    reveal(base::emit);
}

broadcast proof fn same_printed(v: VmV, s: Seq<char>)
    ensures
        same(v, #[trigger] base::printed(v, s)),
{
    reveal(base::printed);
}

broadcast proof fn same_complained(v: VmV, s: Seq<char>)
    ensures
        same(v, #[trigger] base::complained(v, s)),
{
    reveal(base::complained);
}

broadcast proof fn same_crash(v: VmV)
    ensures
        same(v, #[trigger] base::crash(v)),
{
    reveal(base::crash);
}

broadcast proof fn same_pushed(v: VmV, x: i64)
    ensures
        same(v, #[trigger] base::pushed(v, x)),
{
    reveal(base::pushed);
}

broadcast proof fn same_popped(v: VmV)
    ensures
        same(v, (#[trigger] base::popped(v)).1),
{
    reveal(base::popped);
    broadcast use same_emit;
}

broadcast proof fn same_rpushed(v: VmV, x: i64)
    ensures
        same(v, #[trigger] base::rpushed(v, x)),
{
    reveal(base::rpushed);
}

broadcast proof fn same_rpopped(v: VmV)
    ensures
        same(v, (#[trigger] base::rpopped(v)).1),
{
    reveal(base::rpopped);
    broadcast use same_emit;
}

broadcast proof fn same_unfixed(v: VmV)
    ensures
        same(v, (#[trigger] base::unfixed(v)).1),
{
    reveal(base::unfixed);
}

broadcast proof fn same_worded(v: VmV)
    ensures
        same(v, (#[trigger] base::worded(v)).1),
{
    reveal(base::worded);
}

broadcast proof fn same_parsed(v: VmV, c: char)
    ensures
        same(v, (#[trigger] base::parsed(v, c)).1),
{
    reveal(base::parsed);
}

broadcast proof fn same_braced(v: VmV)
    ensures
        same(v, (#[trigger] base::braced(v)).1),
{
    reveal(base::braced);
}

broadcast proof fn same_defined(v: VmV, w: WordV)
    ensures
        same(v, #[trigger] base::defined(v, w)),
{
    reveal(base::defined);
}

broadcast proof fn same_compiled(v: VmV, op: Op)
    ensures
        same(v, #[trigger] base::compiled(v, op)),
{
    reveal(base::compiled);
}

broadcast proof fn same_stored(v: VmV, s: Seq<char>)
    ensures
        same(v, (#[trigger] base::stored(v, s)).1),
{
    reveal(base::stored);
}

broadcast proof fn same_p_dup(v: VmV)
    ensures
        same(v, #[trigger] words::p_dup(v)),
{
    reveal(words::p_dup);
    broadcast use same_complained;
}

broadcast proof fn same_p_swap(v: VmV)
    ensures
        same(v, #[trigger] words::p_swap(v)),
{
    reveal(words::p_swap);
    broadcast use same_complained;
}

broadcast proof fn same_p_over(v: VmV)
    ensures
        same(v, #[trigger] words::p_over(v)),
{
    reveal(words::p_over);
    broadcast use same_complained;
}

broadcast proof fn same_p_rot(v: VmV)
    ensures
        same(v, #[trigger] words::p_rot(v)),
{
    reveal(words::p_rot);
    broadcast use same_complained;
}

broadcast proof fn same_poked(v: VmV, addr: usize, x: i64)
    requires
        addr < v.memory.len(),
    ensures
        same(v, #[trigger] words::poked(v, addr, x)),
{
    reveal(words::poked);
}

broadcast proof fn same_p_quit(v: VmV)
    ensures
        same(v, #[trigger] words::p_quit(v)),
{
    reveal(words::p_quit);
}

broadcast proof fn same_defining(v: VmV, w: WordV)
    ensures
        same(v, #[trigger] compile::defining(v, w)),
{
    reveal(compile::defining);
}

broadcast proof fn same_p_semicolon(v: VmV)
    ensures
        same(v, #[trigger] compile::p_semicolon(v)),
{
    reveal(compile::p_semicolon);
    broadcast use same_emit;
}

broadcast proof fn same_allotted(v: VmV)
    ensures
        same(v, #[trigger] compile::allotted(v)),
{
    reveal(compile::allotted);
}

broadcast proof fn same_deeper(v: VmV)
    ensures
        same(v, #[trigger] compile::deeper(v)),
{
    reveal(compile::deeper);
}

broadcast proof fn same_patched(v: VmV, at: usize, op: Op)
    ensures
        same(v, #[trigger] compile::patched(v, at, op)),
{
    reveal(compile::patched);
    broadcast use same_crash;
}

broadcast proof fn same_p_backslash(v: VmV)
    ensures
        same(v, #[trigger] compile::p_backslash(v)),
{
    reveal(compile::p_backslash);
}

broadcast proof fn with_mesh_node(v: VmV, m: MeshV)
    ensures
        (#[trigger] net::with_mesh(v, m)).mesh == Some(m),
        same(v, (VmV { mesh: v.mesh, ..net::with_mesh(v, m) })),
{
    reveal(net::with_mesh);
}

broadcast proof fn same_padded(v: VmV, data: Seq<u8>)
    ensures
        same(v, #[trigger] net::padded(v, data)),
{
    reveal(net::padded);
    broadcast use {same_crash, same_pushed};
}

broadcast proof fn same_p_auto_claim(v: VmV)
    ensures
        same(v, #[trigger] goal_words::p_auto_claim(v)),
{
    reveal(goal_words::p_auto_claim);
    broadcast use same_printed;
}

broadcast proof fn same_p_timeout(v: VmV)
    ensures
        same(v, #[trigger] goal_words::p_timeout(v)),
{
    reveal(goal_words::p_timeout);
    broadcast use {same_complained, same_popped, same_printed};
}

broadcast proof fn same_counted(v: VmV, success: bool, elapsed: u64)
    ensures
        same(v, #[trigger] sandbox::counted(v, success, elapsed)),
{
    reveal(sandbox::counted);
}

broadcast proof fn same_p_shell_enable(v: VmV)
    ensures
        same(v, #[trigger] host::p_shell_enable(v)),
{
    reveal(host::p_shell_enable);
    broadcast use same_emit;
}

broadcast proof fn same_p_trust(v: VmV)
    ensures
        same(v, #[trigger] host::p_trust(v)),
{
    reveal(host::p_trust);
    broadcast use {same_emit, same_popped};
}

broadcast proof fn same_p_trust_clear(v: VmV, all: bool)
    ensures
        same(v, #[trigger] host::p_trust_clear(v, all)),
{
    reveal(host::p_trust_clear);
    broadcast use same_emit;
}

broadcast proof fn same_with_monitor(v: VmV, m: MonV)
    ensures
        same(v, #[trigger] ops::with_monitor(v, m)),
{
    reveal(ops::with_monitor);
}

broadcast proof fn same_drained(v: VmV)
    ensures
        same(v, #[trigger] ops::drained(v)),
{
    reveal(ops::drained);
}

broadcast proof fn same_rewarded(v: VmV)
    ensures
        same(v, #[trigger] checks::rewarded(v)),
{
    reveal(checks::rewarded);
}

broadcast proof fn same_with_json(v: VmV, s: Seq<char>)
    ensures
        same(v, #[trigger] bridge::with_json(v, s)),
{
    reveal(bridge::with_json);
}

broadcast proof fn same_without_events(v: VmV)
    ensures
        same(v, #[trigger] bridge::without_events(v)),
{
    reveal(bridge::without_events);
}

broadcast proof fn same_with_spawn(v: VmV, s: SpawnV)
    ensures
        same(v, #[trigger] family::with_spawn(v, s)),
{
    reveal(family::with_spawn);
}

broadcast proof fn same_with_auto_save(v: VmV, on: bool)
    ensures
        same(v, #[trigger] keep::with_auto_save(v, on)),
{
    reveal(keep::with_auto_save);
}

broadcast proof fn same_stopped(v: VmV)
    ensures
        same(v, #[trigger] keep::stopped(v)),
{
    reveal(keep::stopped);
}

broadcast proof fn same_with_id(v: VmV, id: Seq<u8>)
    ensures
        same(v, #[trigger] keep::with_id(v, id)),
{
    reveal(keep::with_id);
}

broadcast proof fn same_with_fitness(v: VmV, f: FitV)
    ensures
        same(v, #[trigger] evolve::with_fitness(v, f)),
{
    reveal(evolve::with_fitness);
}

broadcast proof fn same_with_body(v: VmV, i: usize, body: Seq<Op>)
    ensures
        same(v, #[trigger] evolve::with_body(v, i, body)),
{
    reveal(evolve::with_body);
}

broadcast proof fn same_remembered(v: VmV, r: RecordV)
    ensures
        same(v, #[trigger] evolve::remembered(v, r)),
{
    reveal(evolve::remembered);
}

broadcast proof fn same_unremembered(v: VmV)
    ensures
        same(v, #[trigger] evolve::unremembered(v)),
{
    reveal(evolve::unremembered);
}

broadcast proof fn same_noted(v: VmV, r: RecordV, c: MutationClass)
    ensures
        same(v, #[trigger] trials::noted(v, r, c)),
{
    reveal(trials::noted);
}

broadcast proof fn same_trying(v: VmV, round: int, t: Time)
    ensures
        same(v, #[trigger] trials::trying(v, round, t)),
{
    reveal(trials::trying);
}

broadcast proof fn same_tried(v: VmV, stack: Seq<i64>)
    ensures
        same(v, #[trigger] trials::tried(v, stack)),
{
    reveal(trials::tried);
}

broadcast proof fn same_abandoned(v: VmV)
    ensures
        same(v, #[trigger] machine::abandoned(v)),
{
    reveal(machine::abandoned);
}

broadcast proof fn same_overdue(v: VmV)
    ensures
        same(v, #[trigger] machine::overdue(v)),
{
    reveal(machine::overdue);
}

broadcast proof fn same_with_result(v: VmV, r: Option<ResultV>)
    ensures
        same(v, #[trigger] machine::with_result(v, r)),
{
    reveal(machine::with_result);
}

broadcast proof fn same_with_silent(v: VmV, on: bool)
    ensures
        same(v, #[trigger] machine::with_silent(v, on)),
{
    reveal(machine::with_silent);
}

broadcast proof fn framed_frames(v: VmV, f: FrameV)
    ensures
        (#[trigger] base::framed(v, f)).frames == v.frames.push(f),
        same(v, (VmV { frames: v.frames, ..base::framed(v, f) })),
{
    reveal(base::framed);
}

broadcast proof fn asked_pending(v: VmV, r: RequestV)
    ensures
        (#[trigger] base::asked(v, r)).pending == Some(r),
        same(v, (VmV { pending: v.pending, ..base::asked(v, r) })),
{
    reveal(base::asked);
}

broadcast proof fn lined_frames(v: VmV, line: Seq<char>)
    ensures
        (#[trigger] base::lined(v, line)).frames == v.frames.push(FrameV::Line),
        same(v, (VmV { frames: v.frames, ..base::lined(v, line) })),
{
    reveal(base::lined);
    reveal(base::framed);
}

broadcast proof fn noted_log(v: VmV, e: Seq<char>)
    ensures
        v.io_log.len() <= IO_KEPT ==> (#[trigger] host::io_noted(v, e)).io_log.len() <= IO_KEPT,
        same(v, (VmV { io_log: v.io_log, ..host::io_noted(v, e) })),
{
    reveal(host::io_noted);
}

broadcast group group_single {
    same_emit,
    same_printed,
    same_complained,
    same_crash,
    same_pushed,
    same_popped,
    same_rpushed,
    same_rpopped,
    same_unfixed,
    same_worded,
    same_parsed,
    same_braced,
    same_defined,
    same_compiled,
    same_stored,
    same_p_dup,
    same_p_swap,
    same_p_over,
    same_p_rot,
    same_poked,
    same_p_quit,
    same_defining,
    same_p_semicolon,
    same_allotted,
    same_deeper,
    same_patched,
    same_p_backslash,
    with_mesh_node,
    same_padded,
    same_p_auto_claim,
    same_p_timeout,
    same_counted,
    same_p_shell_enable,
    same_p_trust,
    same_p_trust_clear,
    same_with_monitor,
    same_drained,
    same_rewarded,
    same_with_json,
    same_without_events,
    same_with_spawn,
    same_with_auto_save,
    same_stopped,
    same_with_id,
    same_with_fitness,
    same_with_body,
    same_remembered,
    same_unremembered,
    same_noted,
    same_trying,
    same_tried,
    same_abandoned,
    same_overdue,
    same_with_result,
    same_with_silent,
    framed_frames,
    asked_pending,
    lined_frames,
    noted_log,
}

// ---------------------------------------------------------------------------
// The node
// ---------------------------------------------------------------------------

broadcast proof fn whole_created(
    m: MeshV,
    description: Seq<char>,
    priority: i64,
    code: Option<Seq<char>>,
    now: u64,
)
    requires
        whole(Some(m)),
    ensures
        whole(Some(#[trigger] api::goal_created(m, description, priority, code, now))),
{
    reveal(whole);
    laws::law_creating_keeps_invariant(m, description, priority, code, now);
}

broadcast proof fn whole_loaded(m: MeshV, words: nat)
    requires
        whole(Some(m)),
    ensures
        whole(Some(#[trigger] net::loaded(m, words))),
{
    reveal(whole);
}

broadcast proof fn whole_sent(m: MeshV, bytes: Seq<u8>)
    requires
        whole(Some(m)),
    ensures
        whole(Some(#[trigger] node::sent(m, bytes))),
{
    reveal(whole);
}

broadcast proof fn whole_claimed(m: MeshV, i: int, runnable: bool)
    requires
        whole(Some(m)),
        0 <= i < m.goals.tasks.len(),
    ensures
        whole(Some(#[trigger] api::task_claimed(m, i, runnable))),
{
    reveal(whole);
    laws::law_claiming_keeps_invariant(m, i, runnable);
}

broadcast proof fn whole_completed(m: MeshV, id: u64, r: ResultV)
    requires
        whole(Some(m)),
    ensures
        whole(Some(#[trigger] api::task_completed(m, id, r))),
{
    reveal(whole);
    laws::law_completing_keeps_invariant(m, id, r);
}

broadcast proof fn whole_cancelled(m: MeshV, id: u64)
    requires
        whole(Some(m)),
    ensures
        whole(Some(#[trigger] api::goal_cancelled(m, id))),
{
    reveal(whole);
    laws::law_steering_keeps_invariant(m, id, 0);
}

broadcast proof fn whole_steered(m: MeshV, id: u64, priority: i64)
    requires
        whole(Some(m)),
    ensures
        whole(Some(#[trigger] api::goal_steered(m, id, priority))),
{
    reveal(whole);
    laws::law_steering_keeps_invariant(m, id, priority);
}

broadcast proof fn whole_proposing(
    m: MeshV,
    words: nat,
    state: Seq<u8>,
    reason: Seq<char>,
    t: Time,
)
    requires
        whole(Some(m)),
    ensures
        whole(Some((#[trigger] net::propose(m, words, state, reason, t)).0)),
{
    reveal(whole);
    laws::law_proposal_keeps_invariant(
        net::loaded(m, words),
        reason,
        state,
        t.now,
        t.nanos,
    );
}

proof fn lemma_all_shared(m: MeshV, d: Seq<WordV>, n: int)
    requires
        whole(Some(m)),
    ensures
        whole(Some(net::all_shared(m, d, n).0)),
    decreases n,
{
    broadcast use whole_sent;
    if n > 0 {
        lemma_all_shared(m, d, n - 1);
    }
}

broadcast group group_node {
    whole_created,
    whole_loaded,
    whole_sent,
    whole_claimed,
    whole_completed,
    whole_cancelled,
    whole_steered,
    whole_proposing,
}

// ---------------------------------------------------------------------------
// Parts of words
// ---------------------------------------------------------------------------

broadcast proof fn tame_save_checked(v: VmV)
    ensures
        tame(v, #[trigger] sandbox::save_checked(v)),
{
    broadcast use group_single;
    reveal(sandbox::save_checked);
}

broadcast proof fn tame_confined(v: VmV, code: Seq<char>, after: AfterV, t: Time)
    ensures
        tame(v, #[trigger] sandbox::confined(v, code, after, t)),
{
    broadcast use group_single;
    reveal(sandbox::confined);
}

broadcast proof fn tame_claim_ended(v: VmV, task: u64, r: ResultV)
    ensures
        tame(v, #[trigger] sandbox::claim_ended(v, task, r)),
{
    broadcast use {group_single, group_node};
    reveal(sandbox::claim_ended);
}

broadcast proof fn tame_announced_result(v: VmV, task: u64, r: ResultV)
    ensures
        tame(v, #[trigger] sandbox::announced_result(v, task, r)),
{
    broadcast use {group_single, group_node};
    reveal(sandbox::announced_result);
    reveal(whole);
}

broadcast proof fn tame_auto_claim_ended(v: VmV, task: u64, start: u64, r: ResultV, t: Time)
    ensures
        tame(v, #[trigger] sandbox::auto_claim_ended(v, task, start, r, t)),
{
    broadcast use {group_single, tame_announced_result, tame_save_checked};
    reveal(sandbox::auto_claim_ended);
}

broadcast proof fn tame_shallower(v: VmV)
    ensures
        tame(v, #[trigger] compile::shallower(v)),
{
    broadcast use group_single;
    reveal(compile::shallower);
}

broadcast proof fn tame_marked(v: VmV, op: Op)
    ensures
        tame(v, #[trigger] compile::marked(v, op)),
{
    broadcast use group_single;
    reveal(compile::marked);
}

broadcast proof fn tame_with_text_op(v: VmV, s: Seq<char>, id: usize)
    ensures
        tame(v, #[trigger] goal_words::with_text_op(v, s, id)),
{
    broadcast use group_single;
    reveal(goal_words::with_text_op);
}

broadcast proof fn tame_exec_goal(v: VmV, code: Seq<char>, priority: i64, t: Time)
    ensures
        tame(v, #[trigger] goal_words::exec_goal(v, code, priority, t)),
{
    broadcast use {group_single, group_node};
    reveal(goal_words::exec_goal);
}

broadcast proof fn tame_split_goal(v: VmV, m: MeshV, total: i64, n: i64, rest: Seq<char>, priority: i64, t: Time)
    requires
        v.mesh == Some(m),
    ensures
        tame(v, #[trigger] goal_words::split_goal(v, m, total, n, rest, priority, t)),
{
    broadcast use {group_single, group_node};
    reveal(goal_words::split_goal);
    reveal(whole);
    if sound(v) {
        laws::law_splitting_keeps_invariant(m, total, n, rest, priority, t.epoch);
    }
}

broadcast proof fn tame_begun_goal(v: VmV, code: Seq<char>, t: Time)
    ensures
        tame(v, #[trigger] goal_words::begun_goal(v, code, t)),
{
    broadcast use {group_single, tame_exec_goal};
    reveal(goal_words::begun_goal);
}

broadcast proof fn tame_split_ran(v: VmV, saved: Seq<i64>, code: Seq<char>, rest: Seq<char>, priority: i64, t: Time)
    ensures
        tame(v, #[trigger] goal_words::split_ran(v, saved, code, rest, priority, t)),
{
    broadcast use {group_single, tame_exec_goal, tame_split_goal};
    reveal(goal_words::split_ran);
}

broadcast proof fn tame_reducing(v: VmV, code: Seq<char>)
    ensures
        tame(v, #[trigger] goal_words::reducing(v, code)),
{
    broadcast use group_single;
    reveal(goal_words::reducing);
}

broadcast proof fn tame_reduced(v: VmV, values: Seq<i64>, next: usize, code: Seq<char>)
    ensures
        tame(v, #[trigger] goal_words::reduced(v, values, next, code)),
{
    broadcast use group_single;
    reveal(goal_words::reduced);
}

broadcast proof fn tame_io_failed(v: VmV, what: Seq<char>, e: Seq<char>)
    ensures
        tame(v, #[trigger] host::io_failed(v, what, e)),
{
    broadcast use group_single;
    reveal(host::io_failed);
}

broadcast proof fn tame_answered_with(v: VmV, what: Seq<char>, r: ReplyV, otherwise: i64)
    ensures
        tame(v, #[trigger] host::answered_with(v, what, r, otherwise)),
{
    broadcast use {group_single, tame_io_failed};
    reveal(host::answered_with);
}

broadcast proof fn tame_watching(v: VmV, kind: u8, target: Seq<char>, t: Time)
    ensures
        tame(v, #[trigger] ops::watching(v, kind, target, t)),
{
    broadcast use group_single;
    reveal(ops::watching);
}

broadcast proof fn tame_levelled(v: VmV, id: u32)
    ensures
        tame(v, #[trigger] ops::levelled(v, id)),
{
    broadcast use group_single;
    reveal(ops::levelled);
}

broadcast proof fn tame_handling(v: VmV, heal: bool)
    ensures
        tame(v, #[trigger] checks::handling(v, heal)),
{
    broadcast use group_single;
    reveal(checks::handling);
}

broadcast proof fn tame_scheduled(v: VmV, t: Time)
    ensures
        tame(v, #[trigger] checks::scheduled(v, t)),
{
    broadcast use group_single;
    reveal(checks::scheduled);
}

broadcast proof fn tame_alerted(v: VmV, a: AlertV)
    ensures
        tame(v, #[trigger] checks::alerted(v, a)),
{
    broadcast use group_single;
    reveal(checks::alerted);
}

broadcast proof fn tame_packing(v: VmV, purpose: PackingV)
    ensures
        tame(v, #[trigger] family::packing(v, purpose)),
{
    broadcast use group_single;
    reveal(family::packing);
}

broadcast proof fn tame_p_spawn(v: VmV, t: Time)
    ensures
        tame(v, #[trigger] family::p_spawn(v, t)),
{
    broadcast use {group_single, tame_packing};
    reveal(family::p_spawn);
}

broadcast proof fn tame_child_wanted(v: VmV, package: Seq<u8>, arrived: bool)
    ensures
        tame(v, #[trigger] family::child_wanted(v, package, arrived)),
{
    broadcast use group_single;
    reveal(family::child_wanted);
}

broadcast proof fn tame_package_stored(v: VmV, p: Seq<u8>)
    ensures
        tame(v, #[trigger] family::package_stored(v, p)),
{
    broadcast use group_single;
    reveal(family::package_stored);
}

broadcast proof fn tame_size_told(v: VmV, binary: nat, state: nat)
    ensures
        tame(v, #[trigger] family::size_told(v, binary, state)),
{
    broadcast use group_single;
    reveal(family::size_told);
}

broadcast proof fn tame_benchmark_set(v: VmV, code: Seq<char>)
    ensures
        tame(v, #[trigger] evolve::benchmark_set(v, code)),
{
    broadcast use group_single;
    reveal(evolve::benchmark_set);
}

broadcast proof fn tame_undone(v: VmV, r: RecordV)
    ensures
        tame(v, #[trigger] evolve::undone(v, r)),
{
    broadcast use group_single;
    reveal(evolve::undone);
}

broadcast proof fn tame_named_change(v: VmV, name: Seq<char>)
    ensures
        tame(v, #[trigger] evolve::named_change(v, name)),
{
    broadcast use group_single;
    reveal(evolve::named_change);
}

broadcast proof fn tame_judged(v: VmV, r: RecordV, c: MutationClass)
    ensures
        tame(v, #[trigger] trials::judged(v, r, c)),
{
    broadcast use {group_single, tame_undone};
    reveal(trials::judged);
}

broadcast proof fn tame_evolved(v: VmV, average: i64)
    ensures
        tame(v, #[trigger] trials::evolved(v, average)),
{
    broadcast use group_single;
    reveal(trials::evolved);
}

broadcast proof fn tame_selected(v: VmV, average: i64, before: i64, after: i64, r: RecordV)
    ensures
        tame(v, #[trigger] trials::selected(v, average, before, after, r)),
{
    broadcast use {group_single, tame_evolved, tame_undone};
    reveal(trials::selected);
}

broadcast proof fn tame_scored(v: VmV, score: i64, next: ScoredV)
    ensures
        tame(v, #[trigger] trials::scored(v, score, next)),
{
    broadcast use {group_single, tame_judged, tame_selected};
    reveal(trials::scored);
}

broadcast proof fn tame_benched(v: VmV, next: ScoredV, t: Time)
    ensures
        tame(v, #[trigger] trials::benched(v, next, t)),
{
    broadcast use {group_single, tame_confined, tame_scored};
    reveal(trials::benched);
}

broadcast proof fn tame_p_evolve(v: VmV, t: Time)
    ensures
        tame(v, #[trigger] trials::p_evolve(v, t)),
{
    broadcast use {group_single, tame_benched};
    reveal(trials::p_evolve);
}

broadcast proof fn tame_trial_begun(v: VmV, index: usize, body: Seq<Op>, round: u8, seen: Seq<char>, change: Option<ChangeV>, t: Time)
    ensures
        tame(v, #[trigger] trials::trial_begun(v, index, body, round, seen, change, t)),
{
    broadcast use group_single;
    reveal(trials::trial_begun);
}

broadcast proof fn tame_behaviour_seen(v: VmV, index: usize, seen: Seq<char>, change: Option<ChangeV>, t: Time)
    ensures
        tame(v, #[trigger] trials::behaviour_seen(v, index, seen, change, t)),
{
    broadcast use {group_single, tame_benched, tame_judged};
    reveal(trials::behaviour_seen);
}

broadcast proof fn tame_observing(v: VmV, index: usize, change: Option<ChangeV>)
    ensures
        tame(v, #[trigger] trials::observing(v, index, change)),
{
    broadcast use group_single;
    reveal(trials::observing);
}

broadcast proof fn tame_called(v: VmV, i: usize)
    ensures
        tame(v, #[trigger] machine::called(v, i)),
{
    broadcast use group_single;
    reveal(machine::called);
}

broadcast proof fn tame_unknown(v: VmV, id: usize)
    ensures
        tame(v, #[trigger] dispatch::unknown(v, id)),
{
    broadcast use group_single;
    reveal(dispatch::unknown);
}

broadcast proof fn tame_send(v: VmV)
    ensures
        tame(v, #[trigger] net::p_send(v)),
{
    broadcast use {group_single, group_node};
    reveal(net::p_send);
}

broadcast proof fn tame_recv(v: VmV)
    ensures
        tame(v, #[trigger] net::p_recv(v)),
{
    broadcast use {group_single, group_node};
    reveal(net::p_recv);
    reveal(whole);
}

broadcast proof fn tame_replicate(v: VmV)
    ensures
        tame(v, #[trigger] net::p_replicate(v)),
{
    broadcast use {group_single, group_node};
    reveal(net::p_replicate);
}

broadcast proof fn tame_propose(v: VmV, t: Time)
    ensures
        tame(v, #[trigger] net::p_propose(v, t)),
{
    broadcast use {group_single, group_node};
    reveal(net::p_propose);
}

broadcast proof fn tame_goal(v: VmV, t: Time)
    ensures
        tame(v, #[trigger] goal_words::p_goal(v, t)),
{
    broadcast use {group_single, group_node};
    reveal(goal_words::p_goal);
}

broadcast proof fn tame_cancel(v: VmV)
    ensures
        tame(v, #[trigger] goal_words::p_cancel(v)),
{
    broadcast use {group_single, group_node};
    reveal(goal_words::p_cancel);
}

broadcast proof fn tame_steer(v: VmV)
    ensures
        tame(v, #[trigger] goal_words::p_steer(v)),
{
    broadcast use {group_single, group_node};
    reveal(goal_words::p_steer);
}

broadcast proof fn tame_complete(v: VmV)
    ensures
        tame(v, #[trigger] goal_words::p_complete(v)),
{
    broadcast use {group_single, group_node};
    reveal(goal_words::p_complete);
}

broadcast proof fn tame_subtask(v: VmV, t: Time)
    ensures
        tame(v, #[trigger] goal_words::p_subtask(v, t)),
{
    broadcast use {group_single, group_node, tame_with_text_op};
    reveal(goal_words::p_subtask);
    reveal(whole);
    let s = base::braced(v).0;
    let w = base::popped(base::braced(v).1);
    let id = goal_words::ident(w.0);
    if let Some(m) = v.mesh {
        if sound(v) && goals::has_goal(m.goals.goals, id) {
            laws::law_subtask_keeps_invariant(m, id, s, Some(s), t.epoch);
        }
    }
}

broadcast proof fn tame_fork(v: VmV, t: Time)
    ensures
        tame(v, #[trigger] goal_words::p_fork(v, t)),
{
    broadcast use {group_single, group_node};
    reveal(goal_words::p_fork);
    reveal(whole);
    let (k, w) = base::popped(v);
    let id = goal_words::ident(base::popped(w).0);
    let n = k as usize as int;
    if let Some(m) = v.mesh {
        if sound(v) && goals::can_fork(m.goals, id) {
            let code = m.goals.goals[goals::goal_at(m.goals.goals, id)].code->0;
            laws::law_forking_keeps_invariant(m, id, n, n, code, t.epoch);
        }
    }
}

broadcast proof fn tame_claim(v: VmV, t: Time)
    ensures
        tame(v, #[trigger] sandbox::p_claim(v, t)),
{
    broadcast use {group_single, group_node, tame_confined};
    reveal(sandbox::p_claim);
    if let Some(m) = v.mesh {
        goals::law_best_is_highest(m.goals, m.goals.tasks.len() as int, false);
    }
}

broadcast proof fn tame_claim_checked(v: VmV, t: Time)
    ensures
        tame(v, #[trigger] sandbox::claim_checked(v, t)),
{
    broadcast use {group_single, group_node, tame_confined};
    reveal(sandbox::claim_checked);
    if let Some(m) = v.mesh {
        goals::law_best_is_highest(m.goals, m.goals.tasks.len() as int, true);
    }
}

broadcast proof fn tame_set_trust(v: VmV, l: TrustLevel)
    ensures
        tame(v, #[trigger] net::p_set_trust(v, l)),
{
    broadcast use {group_single, group_node};
    reveal(net::p_set_trust);
    reveal(whole);
}

broadcast proof fn tame_accept(v: VmV, t: Time)
    ensures
        tame(v, #[trigger] net::p_accept(v, t)),
{
    broadcast use {group_single, group_node};
    reveal(net::p_accept);
    reveal(whole);
}

broadcast proof fn tame_deny(v: VmV, t: Time)
    ensures
        tame(v, #[trigger] net::p_deny(v, t)),
{
    broadcast use {group_single, group_node};
    reveal(net::p_deny);
    reveal(whole);
}

broadcast proof fn tame_deny_all(v: VmV, t: Time)
    ensures
        tame(v, #[trigger] net::p_deny_all(v, t)),
{
    broadcast use {group_single, group_node};
    reveal(net::p_deny_all);
    reveal(whole);
}

broadcast proof fn tame_replicate_checked(v: VmV, t: Time)
    ensures
        tame(v, #[trigger] ticks::replicate_checked(v, t)),
{
    broadcast use {group_single, group_node};
    reveal(ticks::replicate_checked);
    if let Some(m) = v.mesh {
        assert(whole(Some(m)) ==> whole(Some(MeshV { replicate_needed: false, ..m }))) by {
            reveal(whole);
        }
    }
}

broadcast proof fn tame_words_received(v: VmV)
    ensures
        tame(v, #[trigger] ticks::words_received(v)),
{
    broadcast use {group_single, group_node};
    reveal(ticks::words_received);
    reveal(whole);
}

broadcast proof fn tame_json_updated(v: VmV)
    ensures
        tame(v, #[trigger] bridge::json_updated(v)),
{
    broadcast use {group_single, group_node};
    reveal(bridge::json_updated);
    reveal(whole);
}

broadcast proof fn tame_event_taken(v: VmV, e: EventV, t: Time)
    ensures
        tame(v, #[trigger] bridge::event_taken(v, e, t)),
{
    broadcast use {group_single, group_node};
    reveal(bridge::event_taken);
}

broadcast group group_parts {
    tame_save_checked,
    tame_confined,
    tame_claim_ended,
    tame_announced_result,
    tame_auto_claim_ended,
    tame_shallower,
    tame_marked,
    tame_with_text_op,
    tame_exec_goal,
    tame_split_goal,
    tame_begun_goal,
    tame_split_ran,
    tame_reducing,
    tame_reduced,
    tame_io_failed,
    tame_answered_with,
    tame_watching,
    tame_levelled,
    tame_handling,
    tame_scheduled,
    tame_alerted,
    tame_packing,
    tame_p_spawn,
    tame_child_wanted,
    tame_package_stored,
    tame_size_told,
    tame_benchmark_set,
    tame_undone,
    tame_named_change,
    tame_judged,
    tame_evolved,
    tame_selected,
    tame_scored,
    tame_benched,
    tame_p_evolve,
    tame_trial_begun,
    tame_behaviour_seen,
    tame_observing,
    tame_called,
    tame_unknown,
}

broadcast group group_mesh_parts {
    tame_send,
    tame_recv,
    tame_replicate,
    tame_propose,
    tame_goal,
    tame_cancel,
    tame_steer,
    tame_complete,
    tame_subtask,
    tame_fork,
    tame_claim,
    tame_claim_checked,
    tame_set_trust,
    tame_accept,
    tame_deny,
    tame_deny_all,
    tame_replicate_checked,
    tame_words_received,
    tame_json_updated,
    tame_event_taken,
}

// ---------------------------------------------------------------------------
// Words
// ---------------------------------------------------------------------------

/// The host words write nothing in the sandbox.
broadcast proof fn barred_io_done(v: VmV, op: i64, s: Seq<char>)
    ensures
        barred(v, #[trigger] host::io_done(v, op, s)),
{
    broadcast use group_single;
    reveal(host::io_done);
    reveal(host::io_write);
    reveal(host::io_delete);
    reveal(host::io_post);
    reveal(host::io_shell);
}

broadcast proof fn barred_io(v: VmV, op: i64)
    ensures
        barred(v, #[trigger] host::p_io(v, op)),
{
    broadcast use {group_single, barred_io_done};
    reveal(host::p_io);
}

broadcast proof fn barred_io_rt(v: VmV)
    ensures
        barred(v, #[trigger] host::p_io_rt(v)),
{
    broadcast use {group_single, barred_io_done};
    reveal(host::p_io_rt);
}

#[verifier::spinoff_prover]
#[verifier::rlimit(40)]
proof fn lemma_stack_word(v: VmV, id: usize, t: Time)
    ensures
        tame(v, dispatch::stack_word(v, id, t)),
{
    broadcast use {group_single, group_parts};
    reveal(dispatch::stack_word);
    reveal(words::p_drop);
    reveal(words::p_fetch);
    reveal(words::p_store);
    reveal(words::p_binary);
    reveal(words::p_div);
    reveal(words::p_mod);
    reveal(words::p_not);
    reveal(words::p_emit);
    reveal(host::p_key);
    reveal(words::p_dot);
    reveal(words::p_dot_s);
}

#[verifier::spinoff_prover]
#[verifier::rlimit(40)]
proof fn lemma_defining_word(v: VmV, id: usize, t: Time)
    ensures
        tame(v, dispatch::defining_word(v, id, t)),
{
    broadcast use {group_single, group_parts};
    reveal(dispatch::defining_word);
    reveal(compile::p_colon);
    reveal(compile::p_create);
    reveal(compile::p_variable);
    reveal(compile::p_constant);
    reveal(compile::p_if);
    reveal(compile::p_else);
    reveal(compile::p_then);
    reveal(compile::p_do);
    reveal(compile::p_loop);
    reveal(compile::p_begin);
    reveal(compile::p_until);
    reveal(compile::p_while);
    reveal(compile::p_repeat);
    reveal(compile::p_dot_quote);
    reveal(compile::p_paren);
    reveal(words::p_words);
    reveal(words::p_see);
    reveal(keep::p_bye);
}

#[verifier::spinoff_prover]
#[verifier::rlimit(40)]
proof fn lemma_mesh_word(v: VmV, id: usize, t: Time)
    ensures
        tame(v, dispatch::mesh_word(v, id, t)),
{
    broadcast use {group_single, group_parts, group_mesh_parts};
    reveal(dispatch::mesh_word);
    reveal(net::p_peers);
    reveal(net::p_mutate);
    reveal(compile::p_recurse);
    reveal(net::p_mesh_status);
    reveal(net::p_load);
    reveal(net::p_capacity);
    reveal(net::p_id);
    reveal(net::p_type);
}

#[verifier::spinoff_prover]
#[verifier::rlimit(40)]
proof fn lemma_goal_word(v: VmV, id: usize, t: Time)
    ensures
        tame(v, dispatch::goal_word(v, id, t)),
{
    broadcast use {group_single, group_parts, group_mesh_parts};
    reveal(dispatch::goal_word);
    reveal(goal_words::p_goals);
    reveal(goal_words::p_tasks);
    reveal(goal_words::p_task_status);
    reveal(goal_words::p_report);
    reveal(goal_words::p_goal_exec);
    reveal(goal_words::p_eval);
    reveal(goal_words::p_result);
    reveal(goal_words::p_goal_result);
}

#[verifier::spinoff_prover]
#[verifier::rlimit(40)]
proof fn lemma_evolution_word(v: VmV, id: usize, t: Time)
    ensures
        tame(v, dispatch::evolution_word(v, id, t)),
{
    broadcast use {group_single, group_parts};
    reveal(dispatch::evolution_word);
    reveal(evolve::p_mutate_rand);
    reveal(evolve::p_mutate_word);
    reveal(evolve::p_undo);
    reveal(evolve::p_mutations);
    reveal(evolve::p_fitness);
    reveal(evolve::p_leaderboard);
    reveal(evolve::p_rate);
    reveal(evolve::p_auto_evolve);
    reveal(evolve::p_benchmark);
}

#[verifier::spinoff_prover]
#[verifier::rlimit(40)]
proof fn lemma_keeping_word(v: VmV, id: usize, t: Time)
    ensures
        tame(v, dispatch::keeping_word(v, id, t)),
{
    broadcast use {group_single, group_parts};
    reveal(dispatch::keeping_word);
    reveal(keep::p_reidentify);
    reveal(keep::p_save);
    reveal(keep::p_load_state);
    reveal(keep::p_auto_save);
    reveal(keep::p_reset);
    reveal(keep::p_snapshots);
    reveal(keep::p_snapshot);
    reveal(keep::p_restore);
}

#[verifier::spinoff_prover]
#[verifier::rlimit(40)]
proof fn lemma_loop_word(v: VmV, id: usize, t: Time)
    ensures
        tame(v, dispatch::loop_word(v, id, t)),
{
    broadcast use {group_single, group_parts, group_mesh_parts};
    reveal(dispatch::loop_word);
    reveal(goal_words::p_results);
    reveal(goal_words::p_reduce);
    reveal(goal_words::p_progress);
    reveal(words::p_i);
    reveal(words::p_j);
}

#[verifier::spinoff_prover]
#[verifier::rlimit(40)]
proof fn lemma_family_word(v: VmV, id: usize, t: Time)
    ensures
        tame(v, dispatch::family_word(v, id, t)),
{
    broadcast use {group_single, group_parts};
    reveal(dispatch::family_word);
    reveal(family::p_spawn_n);
    reveal(family::p_package);
    reveal(family::p_package_size);
    reveal(family::p_children);
    reveal(family::p_family);
    reveal(family::p_generation);
    reveal(family::p_kill_child);
    reveal(family::p_replicate_to);
    reveal(family::p_accept_replicate);
    reveal(family::p_quarantine);
    reveal(family::p_max_children);
}

#[verifier::spinoff_prover]
#[verifier::rlimit(40)]
proof fn lemma_watch_word(v: VmV, id: usize, t: Time)
    ensures
        tame(v, dispatch::watch_word(v, id, t)),
{
    broadcast use {group_single, group_parts};
    reveal(dispatch::watch_word);
    reveal(ops::p_watch);
    reveal(ops::p_watches);
    reveal(ops::p_unwatch);
    reveal(ops::p_watch_log);
    reveal(ops::p_on_alert);
    reveal(ops::p_alerts);
    reveal(ops::p_ack);
    reveal(ops::p_alert_history);
    reveal(ops::p_dashboard);
    reveal(ops::p_health);
    reveal(ops::p_uptime);
    reveal(ops::p_every);
    reveal(ops::p_schedule);
    reveal(ops::p_unsched);
    reveal(checks::p_heal);
    reveal(ops::p_health_port);
    reveal(ops::p_alert_threshold);
}

#[verifier::spinoff_prover]
#[verifier::rlimit(40)]
proof fn lemma_bridge_word(v: VmV, id: usize, t: Time)
    ensures
        tame(v, dispatch::bridge_word(v, id, t)),
{
    broadcast use {group_single, group_parts};
    reveal(dispatch::bridge_word);
    reveal(bridge::p_ws_status);
    reveal(bridge::p_ws_clients);
    reveal(bridge::p_ws_port);
    reveal(bridge::p_ws_broadcast);
}

broadcast proof fn tame_discover(v: VmV)
    ensures
        tame(v, #[trigger] net::p_discover(v)),
{
    broadcast use {group_single, group_node};
    reveal(net::p_discover);
    reveal(whole);
}

broadcast proof fn tame_switch(v: VmV, s: Switch)
    ensures
        tame(v, #[trigger] net::p_switch(v, s)),
{
    broadcast use {group_single, group_node};
    reveal(net::p_switch);
    reveal(whole);
}

broadcast proof fn tame_share(v: VmV)
    ensures
        tame(v, #[trigger] net::p_share(v)),
{
    broadcast use {group_single, group_node};
    reveal(net::p_share);
}

broadcast proof fn tame_share_all(v: VmV)
    ensures
        tame(v, #[trigger] net::p_share_all(v)),
{
    broadcast use {group_single, group_node};
    reveal(net::p_share_all);
    if let Some(m) = v.mesh {
        if whole(v.mesh) {
            lemma_all_shared(m, v.dict, v.dict.len() as int);
        }
    }
}

broadcast proof fn tame_shared_words(v: VmV)
    ensures
        tame(v, #[trigger] net::p_shared_words(v)),
{
    broadcast use group_single;
    reveal(net::p_shared_words);
}

broadcast proof fn tame_min_units(v: VmV)
    ensures
        tame(v, #[trigger] net::p_min_units(v)),
{
    broadcast use {group_single, group_node};
    reveal(net::p_min_units);
    reveal(whole);
}

broadcast proof fn tame_max_units(v: VmV)
    ensures
        tame(v, #[trigger] net::p_max_units(v)),
{
    broadcast use {group_single, group_node};
    reveal(net::p_max_units);
    reveal(whole);
}

broadcast proof fn tame_swarm_status(v: VmV)
    ensures
        tame(v, #[trigger] net::p_swarm_status(v)),
{
    broadcast use group_single;
    reveal(net::p_swarm_status);
}

#[verifier::spinoff_prover]
#[verifier::rlimit(40)]
proof fn lemma_swarm_word(v: VmV, id: usize, t: Time)
    ensures
        tame(v, dispatch::swarm_word(v, id, t)),
{
    broadcast use {
        same_emit,
        tame_unknown,
        tame_discover,
        tame_switch,
        tame_share,
        tame_share_all,
        tame_shared_words,
        tame_min_units,
        tame_max_units,
        tame_swarm_status,
    };
    reveal(dispatch::swarm_word);
}

#[verifier::spinoff_prover]
#[verifier::rlimit(40)]
proof fn lemma_consent_word(v: VmV, id: usize, t: Time)
    ensures
        tame(v, dispatch::consent_word(v, id, t)),
{
    broadcast use {group_single, group_parts, group_mesh_parts};
    reveal(dispatch::consent_word);
    reveal(net::p_trust_level);
    reveal(net::p_requests);
    reveal(net::p_replication_log);
}

#[verifier::spinoff_prover]
#[verifier::rlimit(40)]
proof fn lemma_count_word(v: VmV, id: usize, t: Time)
    ensures
        tame(v, dispatch::count_word(v, id, t)),
{
    broadcast use {group_single, group_parts};
    reveal(dispatch::count_word);
    reveal(net::p_goal_count);
    reveal(net::p_task_count);
    reveal(ops::p_watch_count);
    reveal(ops::p_alert_count);
    reveal(family::p_child_count);
    reveal(net::p_mesh_average);
    reveal(checks::p_check_watches);
    reveal(checks::p_run_handlers);
    reveal(trials::p_run_benchmark);
    reveal(evolve::p_mutate_random);
    reveal(evolve::p_undo);
    reveal(ops::p_peer_count);
    reveal(trials::p_smart_mutate);
    reveal(trials::p_mutation_report);
    reveal(trials::p_mutation_stats);
}

#[verifier::spinoff_prover]
#[verifier::rlimit(40)]
proof fn lemma_host_word(v: VmV, id: usize, t: Time)
    ensures
        barred(v, dispatch::host_word(v, id, t)),
{
    broadcast use {group_single, group_parts, barred_io};
    reveal(dispatch::host_word);
    reveal(host::p_timestamp);
    reveal(host::p_sleep);
    reveal(host::p_sandbox);
    reveal(host::p_io_log);
}

proof fn lemma_primitive(v: VmV, id: usize, t: Time)
    ensures
        barred(v, dispatch::primitive(v, id, t)),
{
    broadcast use group_parts;
    reveal(dispatch::primitive);
    lemma_stack_word(v, id, t);
    lemma_defining_word(v, id, t);
    lemma_mesh_word(v, id, t);
    lemma_goal_word(v, id, t);
    lemma_evolution_word(v, id, t);
    lemma_keeping_word(v, id, t);
    lemma_loop_word(v, id, t);
    lemma_family_word(v, id, t);
    lemma_watch_word(v, id, t);
    lemma_bridge_word(v, id, t);
    lemma_swarm_word(v, id, t);
    lemma_consent_word(v, id, t);
    lemma_count_word(v, id, t);
    lemma_host_word(v, id, t);
}

#[verifier::spinoff_prover]
#[verifier::rlimit(40)]
proof fn lemma_run_time(v: VmV, id: usize, t: Time)
    ensures
        barred(v, machine::run_time(v, id, t)),
{
    broadcast use {group_single, group_parts, barred_io_rt};
    reveal(machine::run_time);
    reveal(compile::p_do_rt);
    reveal(compile::p_loop_rt);
    reveal(goal_words::p_goal_exec_rt);
    reveal(evolve::p_mutate_word_rt);
    reveal(evolve::p_benchmark_rt);
    reveal(goal_words::p_reduce_rt);
    reveal(ops::p_watch_rt);
    reveal(ops::p_on_alert_rt);
    reveal(ops::p_every_rt);
    reveal(ops::p_alert_threshold_rt);
    lemma_primitive(v, id, t);
}

// ---------------------------------------------------------------------------
// Frames
// ---------------------------------------------------------------------------

#[verifier::spinoff_prover]
#[verifier::rlimit(40)]
proof fn lemma_line(v: VmV)
    ensures
        tame(v, machine::line_stepped(v)),
{
    broadcast use {group_single, group_parts};
    reveal(machine::line_stepped);
    reveal(machine::compiled_word);
    reveal(machine::interpreted);
}

proof fn lemma_body(v: VmV, body: Seq<Op>, ip: usize, t: Time)
    ensures
        barred(v, machine::body_stepped(v, body, ip, t)),
{
    broadcast use {group_single, group_parts};
    reveal(machine::body_stepped);
    reveal(machine::performed);
    let w = base::framed(v, FrameV::Body { body, ip: (ip + 1) as usize });
    match body[ip as int] {
        Op::Primitive(id) => {
            lemma_run_time(w, id, t);
        },
        _ => {},
    }
}

#[verifier::spinoff_prover]
#[verifier::rlimit(40)]
proof fn lemma_sandbox(
    v: VmV,
    saved: SavedV,
    lines: Seq<Seq<char>>,
    next: usize,
    after: AfterV,
    t: Time,
)
    ensures
        tame(v, machine::sandbox_stepped(v, saved, lines, next, after, t)),
{
    broadcast use {group_single, group_parts};
    reveal(machine::sandbox_stepped);
    reveal(machine::followed);
    reveal(sandbox::restored);
}

#[verifier::spinoff_prover]
#[verifier::rlimit(40)]
proof fn lemma_rows(v: VmV, f: FrameV, t: Time)
    requires
        !(f is Line) && !(f is Body) && !(f is Sandbox) && !(f is Tick),
    ensures
        tame(v, machine::worked(v, f, t)),
{
    broadcast use {group_single, group_parts};
    reveal(machine::worked);
    reveal(checks::job_begun);
    reveal(checks::check_begun);
    reveal(family::next_spawned);
    reveal(trials::observed);
    reveal(machine::prelude_stepped);
}

proof fn lemma_events(v: VmV, s: Seq<EventV>, t: Time)
    ensures
        tame(v, bridge::events_taken(v, s, t)),
    decreases s.len(),
{
    broadcast use tame_event_taken;
    if s.len() > 0 {
        lemma_events(v, s.drop_last(), t);
    }
}

#[verifier::spinoff_prover]
#[verifier::rlimit(40)]
proof fn lemma_tick(v: VmV, stage: u8, t: Time)
    ensures
        tame(v, ticks::ticked(v, stage, t)),
{
    broadcast use {group_single, group_parts, group_mesh_parts};
    reveal(ticks::ticked);
    reveal(trials::evolve_checked);
    reveal(family::incoming_checked);
    reveal(checks::monitor_ticked);
    reveal(bridge::events_polled);
    let w = base::framed(v, FrameV::Tick { stage: (stage + 1) as u8 });
    lemma_events(bridge::without_events(w), w.ws_events, t);
}

/// The work of a frame leaves the frames below it alone, keeps the machine sound, and wants nothing
/// written in the sandbox.
pub proof fn lemma_worked(v: VmV, f: FrameV, t: Time)
    ensures
        barred(v, machine::worked(v, f, t)),
{
    reveal(machine::worked);
    match f {
        FrameV::Line => lemma_line(v),
        FrameV::Body { body, ip } => lemma_body(v, body, ip, t),
        FrameV::Sandbox { saved, lines, next, after } => lemma_sandbox(
            v,
            saved,
            lines,
            next,
            after,
            t,
        ),
        FrameV::Tick { stage } => lemma_tick(v, stage, t),
        _ => lemma_rows(v, f, t),
    }
}

// ---------------------------------------------------------------------------
// Answers
// ---------------------------------------------------------------------------

broadcast proof fn tame_snapshot_restored(v: VmV, s: SnapV)
    requires
        s.memory.len() == MEMORY_CELLS,
        goals::goals_wf(s.goals),
    ensures
        tame(v, #[trigger] keep::snapshot_restored(v, s)),
{
    broadcast use group_single;
    reveal(whole);
    reveal(keep::snapshot_restored);
    reveal(keep::reloaded);
}

proof fn lemma_loaded(v: VmV, name: Seq<char>, r: ReplyV)
    ensures
        tame(v, keep::state_loaded(v, r)),
        tame(v, keep::snapshot_loaded(v, name, r)),
{
    broadcast use {group_single, tame_snapshot_restored};
    reveal(keep::state_loaded);
    reveal(keep::snapshot_loaded);
    if let ReplyV::Bytes(data) = r {
        lemma_snapshot_sound(data);
    }
}

/// A snapshot that bytes hold has a memory of the right size, and goals that do not repeat.
pub proof fn lemma_snapshot_sound(data: Seq<u8>)
    ensures
        keep::snapshot_in(data) matches Some(s) ==> s.memory.len() == MEMORY_CELLS
            && goals::goals_wf(s.goals),
{
    persist::lemma_snapshot_goals(wire::input(data));
}

#[verifier::spinoff_prover]
#[verifier::rlimit(40)]
proof fn lemma_changes(
    v: VmV,
    purpose: Purpose,
    average: i64,
    before: i64,
    seen: Seq<char>,
    r: ReplyV,
    t: Time,
)
    ensures
        tame(v, trials::mutate_replied(v, purpose, average, before, seen, r, t)),
{
    broadcast use {group_single, group_parts};
    reveal(trials::mutate_replied);
    reveal(evolve::change_told);
    reveal(evolve::change_flagged);
    reveal(trials::word_picked);
    reveal(trials::change_observed);
    reveal(trials::change_tried);
    reveal(evolve::changed);
}

/// An answer leaves all frames alone, keeps the machine sound, and wants nothing written.
#[verifier::spinoff_prover]
#[verifier::rlimit(40)]
pub proof fn lemma_answered(v: VmV, q: RequestV, r: ReplyV, t: Time)
    ensures
        tame(v, machine::answered(v, q, r, t)),
{
    broadcast use {group_single, group_parts};
    reveal(machine::answered);
    match q {
        RequestV::LoadState { id } => lemma_loaded(v, Seq::empty(), r),
        RequestV::LoadSnapshot { id, name } => lemma_loaded(v, name, r),
        RequestV::Mutate { index, purpose, average, before, seen } => lemma_changes(
            v,
            purpose,
            average,
            before,
            seen,
            r,
            t,
        ),
        _ => {
            reveal(keep::state_saved);
            reveal(keep::forgotten);
            reveal(keep::snapshots_listed);
            reveal(keep::snapshot_kept);
            reveal(keep::reidentified);
            reveal(family::binary_read);
            reveal(family::child_adopted);
            reveal(family::child_started);
            reveal(family::child_killed);
            reveal(family::package_sent);
            reveal(checks::probed);
            reveal(ops::uptime_told);
            reveal(family::package_arrived);
            reveal(host::io_replied);
        },
    }
}

} // verus!
