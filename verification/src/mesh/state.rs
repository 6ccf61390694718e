//! The state of a unit as a packet: dictionary, memory and goals.

use crate::codec;
use crate::codec::{
    read_dictionary, read_expected, read_memory, write_dictionary, write_ids, write_memory,
};
use crate::goals;
use crate::goals::{Goal, GoalRegistry, GoalV, GoalsV, Task, TaskV};
use crate::persist;
use crate::persist::{write_opt_id, write_result};
use crate::types;
use crate::types::{Cell, Entry, WordV};
use crate::wire;
use crate::wire::{
    write_bytes, write_i64, write_id, write_len16, write_len32, write_string, write_u64, write_u8,
    Input, Reader,
};
use vstd::prelude::*;

verus! {

/// The first bytes of a state packet: a mark and the version.
pub open spec fn state_mark() -> Seq<u8> {
    seq![0x55u8, 0x4Eu8, 0x49u8, 0x54u8, 1u8]
}

/// A goal in a state packet.
pub open spec fn w_state_goal(g: GoalV) -> Seq<u8> {
    wire::w64(g.id as nat) + wire::wi64(g.priority as int) + wire::w8(goals::goal_rank(g.status) as int) + g.creator + wire::w64(
        g.created_at as nat,
    ) + wire::wtext(g.description) + wire::w16(g.task_ids.len()) + codec::w_ids(g.task_ids)
}

/// Goals in a row.
pub open spec fn w_state_goals(s: Seq<GoalV>) -> Seq<u8>
    decreases s.len(),
{
    if s.len() == 0 {
        Seq::empty()
    } else {
        w_state_goals(s.drop_last()) + w_state_goal(s.last())
    }
}

/// A task in a state packet.
pub open spec fn w_state_task(t: TaskV) -> Seq<u8> {
    wire::w64(t.id as nat) + wire::w64(t.goal_id as nat) + wire::w8(goals::task_rank(t.status) as int) + persist::w_opt_id(
        t.assigned_to,
    ) + wire::wtext(t.description) + persist::w_result(t.result) + wire::w64(t.created_at as nat)
}

/// Tasks in a row.
pub open spec fn w_state_tasks(s: Seq<TaskV>) -> Seq<u8>
    decreases s.len(),
{
    if s.len() == 0 {
        Seq::empty()
    } else {
        w_state_tasks(s.drop_last()) + w_state_task(s.last())
    }
}

/// The goals at the end of a state packet; nothing if it carries none.
pub open spec fn w_registry(g: Option<GoalsV>) -> Seq<u8> {
    match g {
        Some(v) => wire::w32(v.goals.len()) + w_state_goals(v.goals) + wire::w32(v.tasks.len())
            + w_state_tasks(v.tasks),
        None => Seq::empty(),
    }
}

/// A state packet.
pub open spec fn w_state(
    dictionary: Seq<WordV>,
    memory: Seq<i64>,
    here: usize,
    g: Option<GoalsV>,
) -> Seq<u8> {
    state_mark() + wire::w32(dictionary.len()) + codec::w_words(dictionary, true) + codec::w_memory(memory, here)
        + w_registry(g)
}

/// Takes a state packet: dictionary, memory and next free address. What follows is not read.
pub open spec fn get_state(i: Input) -> (Seq<WordV>, Seq<i64>, nat, Input) {
    let i = codec::expect(i, state_mark());
    let (n, i) = wire::get_nat(i, 4);
    let (d, i) = codec::get_words(i, n as int, true);
    let (m, here, i) = codec::get_memory(i);
    (d, m, here, i)
}

/// The mathematical form of an optional registry.
pub open spec fn opt_goals(g: Option<&GoalRegistry>) -> Option<GoalsV> {
    match g {
        Some(r) => Some(r@),
        None => None,
    }
}

fn write_goal(buf: &mut Vec<u8>, g: &Goal)
    ensures
        final(buf)@ == old(buf)@ + w_state_goal(g@),
{
    write_u64(buf, g.id);
    write_i64(buf, g.priority);
    write_u8(buf, g.status.as_u8());
    write_id(buf, &g.creator);
    write_u64(buf, g.created_at);
    write_string(buf, g.description.as_str());
    write_len16(buf, g.task_ids.len());
    write_ids(buf, &g.task_ids);
    assert(buf@ =~= old(buf)@ + w_state_goal(g@));
}

fn write_task(buf: &mut Vec<u8>, t: &Task)
    ensures
        final(buf)@ == old(buf)@ + w_state_task(t@),
{
    write_u64(buf, t.id);
    write_u64(buf, t.goal_id);
    write_u8(buf, t.status.as_u8());
    write_opt_id(buf, &t.assigned_to);
    write_string(buf, t.description.as_str());
    write_result(buf, &t.result);
    write_u64(buf, t.created_at);
    assert(buf@ =~= old(buf)@ + w_state_task(t@));
}

fn write_registry(buf: &mut Vec<u8>, r: &GoalRegistry)
    ensures
        final(buf)@ == old(buf)@ + w_registry(Some(r@)),
{
    write_len32(buf, r.goals.len());
    let ghost start = buf@;
    let mut i: usize = 0;
    assert(buf@ =~= start + w_state_goals(r@.goals.take(0)));
    while i < r.goals.len()
        invariant
            i <= r.goals@.len(),
            buf@ == start + w_state_goals(r@.goals.take(i as int)),
        decreases r.goals@.len() - i,
    {
        write_goal(buf, &r.goals[i]);
        i = i + 1;
        assert(r@.goals.take(i as int).drop_last() =~= r@.goals.take(i - 1));
        assert(buf@ =~= start + w_state_goals(r@.goals.take(i as int)));
    }
    assert(r@.goals.take(i as int) =~= r@.goals);
    write_len32(buf, r.tasks.len());
    let ghost next = buf@;
    let mut k: usize = 0;
    assert(buf@ =~= next + w_state_tasks(r@.tasks.take(0)));
    while k < r.tasks.len()
        invariant
            k <= r.tasks@.len(),
            buf@ == next + w_state_tasks(r@.tasks.take(k as int)),
        decreases r.tasks@.len() - k,
    {
        write_task(buf, &r.tasks[k]);
        k = k + 1;
        assert(r@.tasks.take(k as int).drop_last() =~= r@.tasks.take(k - 1));
        assert(buf@ =~= next + w_state_tasks(r@.tasks.take(k as int)));
    }
    assert(r@.tasks.take(k as int) =~= r@.tasks);
    assert(buf@ =~= old(buf)@ + w_registry(Some(r@)));
}

/// The state packet of a dictionary, memory and, if given, goals.
pub fn serialize_state(
    dictionary: &[Entry],
    memory: &[Cell],
    here: usize,
    goals: Option<&GoalRegistry>,
) -> (buf: Vec<u8>)
    ensures
        buf@ == w_state(types::words(dictionary@), memory@, here, opt_goals(goals)),
{
    let mut buf: Vec<u8> = Vec::new();
    let m: [u8; 5] = [0x55, 0x4E, 0x49, 0x54, 1];
    assert(m@ =~= state_mark());
    write_bytes(&mut buf, m.as_slice());
    assert(buf@ =~= state_mark());
    write_dictionary(&mut buf, dictionary, true);
    write_memory(&mut buf, memory, here);
    match goals {
        Some(r) => write_registry(&mut buf, r),
        None => {
            assert(buf@ =~= buf@ + w_registry(None));
        },
    }
    buf
}

/// The dictionary, the memory and the next free address of a state packet; `None` if the bytes are
/// no state packet.
pub fn deserialize_state(data: &[u8]) -> (o: Option<(Vec<Entry>, Vec<Cell>, usize)>)
    ensures
        ({
            let (d, m, here, i) = get_state(wire::input(data@));
            &&& o.is_some() == i.ok
            &&& o matches Some(x) ==> types::words(x.0@) == d && x.1@ == m && x.2 == here
        }),
{
    let mut r = Reader::new(data);
    let m: [u8; 5] = [0x55, 0x4E, 0x49, 0x54, 1];
    assert(m@ =~= state_mark());
    read_expected(&mut r, m.as_slice());
    let n = r.read_u32();
    let ghost i0 = r@;
    let dictionary = read_dictionary(&mut r, n, true);
    let ghost i1 = r@;
    let (memory, here) = read_memory(&mut r);
    if r.good() {
        proof {
            if !i1.ok {
                let (h, k1) = wire::get_nat(i1, 4);
                let (q, k2) = wire::get_nat(k1, 4);
                codec::lemma_failed(if q < 65536 {
                    q as int
                } else {
                    65536
                }, false);
            }
        }
        Some((dictionary, memory, here as usize))
    } else {
        None
    }
}

/// Reading a state packet succeeds and gives back the dictionary, the memory in use with zeros
/// behind it, and the next free address, whatever goals the packet carries.
pub proof fn law_state_roundtrip(
    dictionary: Seq<WordV>,
    memory: Seq<i64>,
    here: usize,
    g: Option<GoalsV>,
)
    requires
        codec::words_fit(dictionary, true),
        here <= u32::MAX,
        codec::used(memory, here).len() <= 65536,
    ensures
        get_state(wire::input(w_state(dictionary, memory, here, g))) == (
            dictionary,
            codec::filled(codec::used(memory, here)),
            here as nat,
            wire::input(w_registry(g)),
        ),
{
    wire::lemma_pow256();
    let t3 = w_registry(g);
    let t2 = codec::w_memory(memory, here) + t3;
    let t1 = codec::w_words(dictionary, true) + t2;
    let t0 = wire::w32(dictionary.len()) + t1;
    assert(w_state(dictionary, memory, here, g) =~= state_mark() + t0);
    wire::lemma_get_bytes(state_mark(), t0);
    wire::lemma_get_nat(dictionary.len(), 4, t1);
    codec::lemma_words_back(dictionary, true, t2);
    codec::lemma_memory_back(memory, here, t3);
}

} // verus!
