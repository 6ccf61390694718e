//! Bytes that are cut short are refused: a reader that succeeds on the start of some bytes leaves
//! over what follows, so that it cannot succeed on a part of what takes all the bytes.

use crate::codec;
use crate::goals;
use crate::goals::{GoalV, GoalsV, TaskV};
use crate::mesh::goal_message;
use crate::mesh::gossip;
use crate::mesh::message;
use crate::mesh::message::AddrV;
use crate::mesh::node::MeshV;
use crate::mesh::state;
use crate::persist;
use crate::persist::SnapV;
use crate::types::WordV;
use crate::wire;
use crate::wire::Input;
use vstd::prelude::*;

verus! {

/// An input with more bytes behind it.
pub open spec fn more(i: Input, t: Seq<u8>) -> Input {
    Input { rest: i.rest + t, ok: i.ok }
}

// ---------------------------------------------------------------------------
// Numbers, texts and identities
// ---------------------------------------------------------------------------

broadcast proof fn bytes_ok(i: Input, n: int)
    requires
        (#[trigger] wire::get_bytes(i, n)).1.ok,
    ensures
        i.ok,
{
}

broadcast proof fn more_bytes(i: Input, n: int, t: Seq<u8>)
    requires
        n >= 0,
        wire::get_bytes(i, n).1.ok,
    ensures
        #[trigger] wire::get_bytes(more(i, t), n) == (
            wire::get_bytes(i, n).0,
            more(wire::get_bytes(i, n).1, t),
        ),
{
    assert((i.rest + t).take(n) =~= i.rest.take(n));
    assert((i.rest + t).skip(n) =~= i.rest.skip(n) + t);
}

broadcast group group_bytes {
    bytes_ok,
    more_bytes,
}

broadcast proof fn nat_ok(i: Input, k: int)
    requires
        (#[trigger] wire::get_nat(i, k)).1.ok,
    ensures
        i.ok,
{
}

broadcast proof fn more_nat(i: Input, k: int, t: Seq<u8>)
    requires
        k >= 0,
        wire::get_nat(i, k).1.ok,
    ensures
        #[trigger] wire::get_nat(more(i, t), k) == (
            wire::get_nat(i, k).0,
            more(wire::get_nat(i, k).1, t),
        ),
{
    broadcast use group_bytes;
}

broadcast proof fn int_ok(i: Input)
    requires
        (#[trigger] wire::get_int(i)).1.ok,
    ensures
        i.ok,
{
}

broadcast proof fn more_int(i: Input, t: Seq<u8>)
    requires
        wire::get_int(i).1.ok,
    ensures
        #[trigger] wire::get_int(more(i, t)) == (wire::get_int(i).0, more(wire::get_int(i).1, t)),
{
    broadcast use {nat_ok, more_nat};
}

broadcast proof fn text_ok(i: Input, k: int)
    requires
        (#[trigger] wire::get_text(i, k)).1.ok,
    ensures
        i.ok,
{
}

broadcast proof fn more_text(i: Input, k: int, t: Seq<u8>)
    requires
        k >= 0,
        wire::get_text(i, k).1.ok,
    ensures
        #[trigger] wire::get_text(more(i, t), k) == (
            wire::get_text(i, k).0,
            more(wire::get_text(i, k).1, t),
        ),
{
    broadcast use {group_bytes, nat_ok, more_nat};
}

broadcast proof fn id_ok(i: Input)
    requires
        (#[trigger] wire::get_id(i)).1.ok,
    ensures
        i.ok,
{
}

broadcast proof fn more_id(i: Input, t: Seq<u8>)
    requires
        wire::get_id(i).1.ok,
    ensures
        #[trigger] wire::get_id(more(i, t)) == (wire::get_id(i).0, more(wire::get_id(i).1, t)),
{
    broadcast use group_bytes;
}

broadcast proof fn expect_ok(i: Input, b: Seq<u8>)
    requires
        (#[trigger] codec::expect(i, b)).ok,
    ensures
        i.ok,
{
}

broadcast proof fn more_expect(i: Input, b: Seq<u8>, t: Seq<u8>)
    requires
        codec::expect(i, b).ok,
    ensures
        #[trigger] codec::expect(more(i, t), b) == more(codec::expect(i, b), t),
{
    broadcast use group_bytes;
}

broadcast group group_plain {
    nat_ok,
    more_nat,
    int_ok,
    more_int,
    text_ok,
    more_text,
    id_ok,
    more_id,
    expect_ok,
    more_expect,
}

// ---------------------------------------------------------------------------
// Dictionary and memory
// ---------------------------------------------------------------------------

proof fn lemma_op(i: Input, long: bool, t: Seq<u8>)
    requires
        codec::get_op(i, long).1.ok,
    ensures
        i.ok,
        codec::get_op(more(i, t), long) == (
            codec::get_op(i, long).0,
            more(codec::get_op(i, long).1, t),
        ),
{
    broadcast use group_plain;
}

proof fn lemma_ops(i: Input, n: int, long: bool, t: Seq<u8>)
    requires
        codec::get_ops(i, n, long).1.ok,
    ensures
        i.ok,
        codec::get_ops(more(i, t), n, long) == (
            codec::get_ops(i, n, long).0,
            more(codec::get_ops(i, n, long).1, t),
        ),
    decreases n,
{
    if n > 0 {
        lemma_op(codec::get_ops(i, n - 1, long).1, long, t);
        lemma_ops(i, n - 1, long, t);
    }
}

proof fn lemma_word(i: Input, long: bool, t: Seq<u8>)
    requires
        codec::get_word(i, long).1.ok,
    ensures
        i.ok,
        codec::get_word(more(i, t), long) == (
            codec::get_word(i, long).0,
            more(codec::get_word(i, long).1, t),
        ),
{
    broadcast use group_plain;
    let (name, i1) = wire::get_text(i, 2);
    let (f, i2) = wire::get_nat(i1, 1);
    let (n, i3) = wire::get_nat(i2, 4);
    lemma_ops(i3, n as int, long, t);
}

proof fn lemma_words(i: Input, n: int, long: bool, t: Seq<u8>)
    requires
        codec::get_words(i, n, long).1.ok,
    ensures
        i.ok,
        codec::get_words(more(i, t), n, long) == (
            codec::get_words(i, n, long).0,
            more(codec::get_words(i, n, long).1, t),
        ),
    decreases n,
{
    if n > 0 {
        lemma_word(codec::get_words(i, n - 1, long).1, long, t);
        lemma_words(i, n - 1, long, t);
    }
}

proof fn lemma_cells(i: Input, n: int, t: Seq<u8>)
    requires
        codec::get_cells(i, n).1.ok,
    ensures
        i.ok,
        codec::get_cells(more(i, t), n) == (
            codec::get_cells(i, n).0,
            more(codec::get_cells(i, n).1, t),
        ),
    decreases n,
{
    broadcast use group_plain;
    if n > 0 {
        lemma_cells(i, n - 1, t);
    }
}

proof fn lemma_ids(i: Input, n: int, t: Seq<u8>)
    requires
        codec::get_ids(i, n).1.ok,
    ensures
        i.ok,
        codec::get_ids(more(i, t), n) == (
            codec::get_ids(i, n).0,
            more(codec::get_ids(i, n).1, t),
        ),
    decreases n,
{
    broadcast use group_plain;
    if n > 0 {
        lemma_ids(i, n - 1, t);
    }
}

proof fn lemma_memory(i: Input, t: Seq<u8>)
    requires
        codec::get_memory(i).2.ok,
    ensures
        i.ok,
        codec::get_memory(more(i, t)) == (
            codec::get_memory(i).0,
            codec::get_memory(i).1,
            more(codec::get_memory(i).2, t),
        ),
{
    broadcast use group_plain;
    let (here, i1) = wire::get_nat(i, 4);
    let (n, i2) = wire::get_nat(i1, 4);
    lemma_cells(i2, if n < 65536 {
        n as int
    } else {
        65536
    }, t);
}

// ---------------------------------------------------------------------------
// Goals and tasks
// ---------------------------------------------------------------------------

proof fn lemma_result(i: Input, t: Seq<u8>)
    requires
        persist::get_result(i).1.ok,
    ensures
        i.ok,
        persist::get_result(more(i, t)) == (
            persist::get_result(i).0,
            more(persist::get_result(i).1, t),
        ),
{
    broadcast use group_plain;
    let (f, i1) = persist::get_flag(i);
    if f {
        let (success, i2) = persist::get_flag(i1);
        let (n, i3) = wire::get_nat(i2, 2);
        let (stack, i4) = codec::get_cells(i3, n as int);
        let (output, i5) = wire::get_text(i4, 2);
        let (e, i6) = wire::get_text(i5, 2);
        lemma_cells(i3, n as int, t);
    }
}

proof fn lemma_opt_text(i: Input, t: Seq<u8>)
    requires
        persist::get_opt_text(i).1.ok,
    ensures
        i.ok,
        persist::get_opt_text(more(i, t)) == (
            persist::get_opt_text(i).0,
            more(persist::get_opt_text(i).1, t),
        ),
{
    broadcast use group_plain;
}

proof fn lemma_opt_id(i: Input, t: Seq<u8>)
    requires
        persist::get_opt_id(i).1.ok,
    ensures
        i.ok,
        persist::get_opt_id(more(i, t)) == (
            persist::get_opt_id(i).0,
            more(persist::get_opt_id(i).1, t),
        ),
{
    broadcast use group_plain;
}

proof fn lemma_goal(i: Input, t: Seq<u8>)
    requires
        persist::get_goal(i).1.ok,
    ensures
        i.ok,
        persist::get_goal(more(i, t)) == (
            persist::get_goal(i).0,
            more(persist::get_goal(i).1, t),
        ),
{
    broadcast use group_plain;
    let (id, i1) = wire::get_nat(i, 8);
    let (description, i2) = wire::get_text(i1, 2);
    let (code, i3) = persist::get_opt_text(i2);
    let (priority, i4) = wire::get_int(i3);
    let (s, i5) = wire::get_nat(i4, 1);
    let (creator, i6) = wire::get_id(i5);
    let (created_at, i7) = wire::get_nat(i6, 8);
    let (n, i8) = wire::get_nat(i7, 2);
    lemma_ids(i8, n as int, t);
    lemma_opt_text(i2, t);
}

proof fn lemma_goals(i: Input, n: int, t: Seq<u8>)
    requires
        persist::get_goals(i, n).1.ok,
    ensures
        i.ok,
        persist::get_goals(more(i, t), n) == (
            persist::get_goals(i, n).0,
            more(persist::get_goals(i, n).1, t),
        ),
    decreases n,
{
    if n > 0 {
        lemma_goal(persist::get_goals(i, n - 1).1, t);
        lemma_goals(i, n - 1, t);
    }
}

proof fn lemma_task(i: Input, t: Seq<u8>)
    requires
        persist::get_task(i).1.ok,
    ensures
        i.ok,
        persist::get_task(more(i, t)) == (
            persist::get_task(i).0,
            more(persist::get_task(i).1, t),
        ),
{
    broadcast use group_plain;
    let (id, i1) = wire::get_nat(i, 8);
    let (goal_id, i2) = wire::get_nat(i1, 8);
    let (description, i3) = wire::get_text(i2, 2);
    let (s, i4) = wire::get_nat(i3, 1);
    let (assigned_to, i5) = persist::get_opt_id(i4);
    let (created_at, i6) = wire::get_nat(i5, 8);
    lemma_result(i6, t);
    lemma_opt_id(i4, t);
}

proof fn lemma_tasks(i: Input, n: int, t: Seq<u8>)
    requires
        persist::get_tasks(i, n).1.ok,
    ensures
        i.ok,
        persist::get_tasks(more(i, t), n) == (
            persist::get_tasks(i, n).0,
            more(persist::get_tasks(i, n).1, t),
        ),
    decreases n,
{
    if n > 0 {
        lemma_task(persist::get_tasks(i, n - 1).1, t);
        lemma_tasks(i, n - 1, t);
    }
}

proof fn lemma_texts(i: Input, n: int, t: Seq<u8>)
    requires
        persist::get_texts(i, n).1.ok,
    ensures
        i.ok,
        persist::get_texts(more(i, t), n) == (
            persist::get_texts(i, n).0,
            more(persist::get_texts(i, n).1, t),
        ),
    decreases n,
{
    broadcast use group_plain;
    if n > 0 {
        lemma_texts(i, n - 1, t);
    }
}

proof fn lemma_fitness(i: Input, t: Seq<u8>)
    requires
        persist::get_fitness(i).1.ok,
    ensures
        i.ok,
        persist::get_fitness(more(i, t)) == (
            persist::get_fitness(i).0,
            more(persist::get_fitness(i).1, t),
        ),
{
    broadcast use group_plain;
}

// ---------------------------------------------------------------------------
// Snapshots
// ---------------------------------------------------------------------------

#[verifier::spinoff_prover]
#[verifier::rlimit(40)]
proof fn lemma_snapshot(i: Input, t: Seq<u8>)
    requires
        persist::get_snapshot(i).1.ok,
    ensures
        codec::expect(i, persist::mark()).ok,
        persist::get_snapshot(more(i, t)) == (
            persist::get_snapshot(i).0,
            more(persist::get_snapshot(i).1, t),
        ),
{
    broadcast use group_plain;
    let i0 = codec::expect(i, persist::mark());
    let (node_id, i1) = wire::get_id(i0);
    let (n, i2) = wire::get_nat(i1, 4);
    let (dictionary, i3) = codec::get_words(i2, n as int, false);
    let (memory, here, i4) = codec::get_memory(i3);
    let (g, i5) = wire::get_nat(i4, 4);
    let (gs, i6) = persist::get_goals(i5, g as int);
    let (k, i7) = wire::get_nat(i6, 4);
    let (ts, i8) = persist::get_tasks(i7, k as int);
    let (fitness, i9) = persist::get_fitness(i8);
    let (c, i10) = wire::get_nat(i9, 4);
    lemma_texts(i10, c as int, t);
    lemma_fitness(i8, t);
    lemma_tasks(i7, k as int, t);
    lemma_goals(i5, g as int, t);
    lemma_memory(i3, t);
    lemma_words(i2, n as int, false, t);
}

/// The bytes of a snapshot, cut short anywhere, are refused.
#[verifier::spinoff_prover]
#[verifier::rlimit(40)]
pub proof fn law_snapshot_cut_short(s: SnapV, n: int)
    requires
        persist::snapshot_fits(s),
        goals::goals_wf(s.goals),
        0 <= n < persist::w_snapshot(s).len(),
    ensures
        !persist::get_snapshot(wire::input(persist::w_snapshot(s).take(n))).1.ok,
{
    let b = persist::w_snapshot(s);
    let i = wire::input(b.take(n));
    if persist::get_snapshot(i).1.ok {
        lemma_snapshot(i, b.skip(n));
        assert(b.take(n) + b.skip(n) =~= b);
        assert(b + Seq::<u8>::empty() =~= b);
        persist::law_snapshot_roundtrip(s, Seq::empty());
        assert(more(persist::get_snapshot(i).1, b.skip(n)).rest.len() >= b.len() - n);
    }
}

/// Bytes that do not start with the mark of a snapshot are refused.
pub proof fn law_foreign_snapshot_refused(data: Seq<u8>)
    requires
        data.len() < persist::mark().len() || data.take(persist::mark().len() as int)
            != persist::mark(),
    ensures
        !persist::get_snapshot(wire::input(data)).1.ok,
{
    if persist::get_snapshot(wire::input(data)).1.ok {
        lemma_snapshot(wire::input(data), Seq::empty());
    }
}

// ---------------------------------------------------------------------------
// State packets
// ---------------------------------------------------------------------------

proof fn lemma_state(i: Input, t: Seq<u8>)
    requires
        state::get_state(i).3.ok,
    ensures
        codec::expect(i, state::state_mark()).ok,
        state::get_state(more(i, t)) == (
            state::get_state(i).0,
            state::get_state(i).1,
            state::get_state(i).2,
            more(state::get_state(i).3, t),
        ),
{
    broadcast use group_plain;
    let i0 = codec::expect(i, state::state_mark());
    let (n, i1) = wire::get_nat(i0, 4);
    let (d, i2) = codec::get_words(i1, n as int, true);
    lemma_memory(i2, t);
    lemma_words(i1, n as int, true, t);
}

/// A state packet, cut short anywhere before the goals at its end, is refused. One that carries no
/// goals is refused wherever it is cut.
pub proof fn law_state_cut_short(
    dictionary: Seq<WordV>,
    memory: Seq<i64>,
    here: usize,
    g: Option<GoalsV>,
    n: int,
)
    requires
        codec::words_fit(dictionary, true),
        here <= u32::MAX,
        codec::used(memory, here).len() <= 65536,
        0 <= n < state::w_state(dictionary, memory, here, None).len(),
    ensures
        !state::get_state(wire::input(state::w_state(dictionary, memory, here, g).take(n))).3.ok,
{
    let b = state::w_state(dictionary, memory, here, g);
    let plain = state::w_state(dictionary, memory, here, None);
    let i = wire::input(b.take(n));
    assert(plain + state::w_registry(g) =~= b);
    if state::get_state(i).3.ok {
        lemma_state(i, b.skip(n));
        assert(b.take(n) + b.skip(n) =~= b);
        state::law_state_roundtrip(dictionary, memory, here, g);
        assert(more(state::get_state(i).3, b.skip(n)).rest.len() >= b.len() - n);
        assert(b.len() == plain.len() + state::w_registry(g).len());
    }
}

/// Bytes that differ from a state packet in the mark or in the version at its start are refused.
pub proof fn law_foreign_state_refused(data: Seq<u8>, k: int)
    requires
        0 <= k < state::state_mark().len(),
        data.len() <= k || data[k] != state::state_mark()[k],
    ensures
        !state::get_state(wire::input(data)).3.ok,
{
    if state::get_state(wire::input(data)).3.ok {
        lemma_state(wire::input(data), Seq::empty());
        assert(data.take(5)[k] == data[k]);
    }
}

// ---------------------------------------------------------------------------
// Goal packets
// ---------------------------------------------------------------------------

proof fn lemma_goal_task(i: Input, goal: u64, created_at: u64, t: Seq<u8>)
    requires
        goal_message::get_goal_task(i, goal, created_at).1.ok,
    ensures
        i.ok,
        goal_message::get_goal_task(more(i, t), goal, created_at) == (
            goal_message::get_goal_task(i, goal, created_at).0,
            more(goal_message::get_goal_task(i, goal, created_at).1, t),
        ),
{
    broadcast use group_plain;
    let (id, i1) = wire::get_nat(i, 8);
    let (s, i2) = wire::get_nat(i1, 1);
    let (assigned_to, i3) = persist::get_opt_id(i2);
    let (description, i4) = wire::get_text(i3, 2);
    lemma_result(i4, t);
    lemma_opt_id(i2, t);
}

proof fn lemma_goal_tasks(i: Input, n: int, goal: u64, created_at: u64, t: Seq<u8>)
    requires
        goal_message::get_goal_tasks(i, n, goal, created_at).1.ok,
    ensures
        i.ok,
        goal_message::get_goal_tasks(more(i, t), n, goal, created_at) == (
            goal_message::get_goal_tasks(i, n, goal, created_at).0,
            more(goal_message::get_goal_tasks(i, n, goal, created_at).1, t),
        ),
    decreases n,
{
    if n > 0 {
        let j = goal_message::get_goal_tasks(i, n - 1, goal, created_at).1;
        lemma_goal_task(j, goal, created_at, t);
        lemma_goal_tasks(i, n - 1, goal, created_at, t);
    }
}

#[verifier::spinoff_prover]
#[verifier::rlimit(40)]
proof fn lemma_goal_message(i: Input, t: Seq<u8>)
    requires
        goal_message::get_goal_message(i).2.ok,
    ensures
        i.ok,
        goal_message::get_goal_message(more(i, t)) == (
            goal_message::get_goal_message(i).0,
            goal_message::get_goal_message(i).1,
            more(goal_message::get_goal_message(i).2, t),
        ),
{
    broadcast use group_plain;
    let (id, i1) = wire::get_nat(i, 8);
    let (priority, i2) = wire::get_int(i1);
    let (s, i3) = wire::get_nat(i2, 1);
    let (creator, i4) = wire::get_id(i3);
    let (created_at, i5) = wire::get_nat(i4, 8);
    let (description, i6) = wire::get_text(i5, 2);
    let (code, i7) = persist::get_opt_text(i6);
    let (n, i8) = wire::get_nat(i7, 2);
    lemma_goal_tasks(i8, n as int, id as u64, created_at as u64, t);
    lemma_opt_text(i6, t);
}

proof fn lemma_header(i: Input, t: Seq<u8>)
    requires
        message::get_header(i).3.ok,
    ensures
        message::get_header(more(i, t)) == (
            message::get_header(i).0,
            message::get_header(i).1,
            message::get_header(i).2,
            more(message::get_header(i).3, t),
        ),
{
    broadcast use group_plain;
}

#[verifier::spinoff_prover]
#[verifier::rlimit(40)]
proof fn lemma_goal_bytes_cut(id: Seq<u8>, port: u16, g: GoalV, tasks: Seq<TaskV>, n: int)
    requires
        id.len() == 8,
        persist::goal_fits(g),
        tasks.len() < 65536,
        forall|i: int| 0 <= i < tasks.len() ==> persist::task_fits(#[trigger] tasks[i]),
        0 <= n < goal_message::goal_bytes(id, port, g, tasks).len(),
    ensures
        ({
            let b = goal_message::goal_bytes(id, port, g, tasks);
            let (kind, sender, p, j) = message::get_header(wire::input(b.take(n)));
            j.ok ==> kind == message::MSG_GOAL_BROADCAST && !goal_message::get_goal_message(j).2.ok
        }),
{
    let b = goal_message::goal_bytes(id, port, g, tasks);
    let rest = b.skip(n);
    let i = wire::input(b.take(n));
    let j = message::get_header(i).3;
    assert(b.take(n) + rest =~= b);
    assert(b + Seq::<u8>::empty() =~= b);
    goal_message::law_goal_message_roundtrip(id, port, g, tasks, Seq::empty());
    if j.ok {
        lemma_header(i, rest);
        if goal_message::get_goal_message(j).2.ok {
            lemma_goal_message(j, rest);
            assert(more(goal_message::get_goal_message(j).2, rest).rest.len() >= rest.len());
        }
    }
}

/// The packet of a goal, cut short anywhere, changes nothing at the node that gets it: neither its
/// goals and tasks nor its log of events.
#[verifier::spinoff_prover]
#[verifier::rlimit(40)]
pub proof fn law_goal_packet_cut_short(
    id: Seq<u8>,
    port: u16,
    g: GoalV,
    tasks: Seq<TaskV>,
    n: int,
    m: MeshV,
    from: AddrV,
    now: u64,
)
    requires
        id.len() == 8,
        persist::goal_fits(g),
        tasks.len() < 65536,
        forall|i: int| 0 <= i < tasks.len() ==> persist::task_fits(#[trigger] tasks[i]),
        0 <= n < goal_message::goal_bytes(id, port, g, tasks).len(),
    ensures
        gossip::on_packet(m, goal_message::goal_bytes(id, port, g, tasks).take(n), from, now) == m,
{
    lemma_goal_bytes_cut(id, port, g, tasks, n);
}

} // verus!
