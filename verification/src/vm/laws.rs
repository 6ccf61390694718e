//! Laws of the machine as a whole: what no step, no answer and no program can change.

use crate::mesh::consensus;
use crate::mesh::gossip;
use crate::mesh::laws;
use crate::mesh::message::AddrV;
use crate::mesh::node;
use crate::mesh::node::MeshV;
use crate::vm::base;
use crate::vm::machine;
use crate::vm::net;
use crate::vm::run;
use crate::vm::sandbox;
use crate::vm::state::{AfterV, FrameV, ReplyV, Time, VmV};
use crate::vm::table;
use crate::vm::table::WORD_COUNT;
use crate::vm::upkeep;
use vstd::prelude::*;

verus! {

// ---------------------------------------------------------------------------
// Frames
// ---------------------------------------------------------------------------

/// A step ends or goes on with the frame at work, and leaves all frames below it alone.
pub proof fn law_step_keeps_lower_frames(v: VmV, t: Time)
    requires
        v.frames.len() > 0,
    ensures
        upkeep::kept(v.frames.drop_last(), machine::stepped(v, t).frames),
{
    reveal(machine::stepped);
    if machine::ready(v) {
        let u = base::unframed(v);
        upkeep::lemma_worked(u, v.frames.last(), t);
        assert(u.frames == v.frames.drop_last()) by {
            reveal(base::unframed);
        }
    }
}

/// An answer leaves all frames alone.
pub proof fn law_answer_keeps_frames(v: VmV, r: ReplyV, t: Time)
    ensures
        upkeep::kept(v.frames, machine::resumed(v, r, t).frames),
{
    reveal(machine::resumed);
    reveal(machine::unasked);
    if let Some(q) = v.pending {
        upkeep::lemma_answered(machine::unasked(v), q, r, t);
    }
}

// ---------------------------------------------------------------------------
// Soundness
// ---------------------------------------------------------------------------

/// A new machine has a memory of the right size, an empty log of host words and no node.
pub proof fn law_new_machine_sound()
    ensures
        upkeep::sound(table::registered(run::blank(), WORD_COUNT as int)),
{
    lemma_registered_sound(WORD_COUNT as int);
}

proof fn lemma_registered_sound(n: int)
    ensures
        upkeep::sound(table::registered(run::blank(), n)),
    decreases n,
{
    if n > 0 {
        lemma_registered_sound(n - 1);
        reveal(table::with_word);
    } else {
        reveal(upkeep::whole);
    }
}

/// A sound machine that joins the mesh stays sound.
pub proof fn law_joining_keeps_machine_sound(
    v: VmV,
    id: Seq<u8>,
    port: u16,
    seeds: Seq<AddrV>,
    now: u64,
)
    requires
        upkeep::sound(v),
    ensures
        upkeep::sound(net::with_mesh(v, node::started(id, port, seeds, now))),
{
    reveal(net::with_mesh);
    reveal(upkeep::whole);
    laws::law_start_has_invariant(id, port, seeds, now);
}

/// A sound machine stays sound when its node gets a packet or a beacon, when its turn comes and when
/// it announces itself.
pub proof fn law_mesh_keeps_machine_sound(
    v: VmV,
    m: MeshV,
    data: Seq<u8>,
    from: AddrV,
    ip: u32,
    last: Option<u64>,
    last_beacon: u64,
    now: u64,
)
    requires
        upkeep::sound(v),
        v.mesh == Some(m),
    ensures
        upkeep::sound(net::with_mesh(v, gossip::on_packet(m, data, from, now))),
        upkeep::sound(net::with_mesh(v, gossip::on_beacon(m, data, ip, now))),
        upkeep::sound(net::with_mesh(v, consensus::ticked(m, last, now))),
        upkeep::sound(net::with_mesh(v, consensus::beaconed(m, last_beacon, now))),
{
    reveal(net::with_mesh);
    reveal(upkeep::whole);
    laws::law_packet_keeps_invariant(m, data, from, now);
    laws::law_beacon_keeps_invariant(m, data, ip, now);
    laws::law_tick_keeps_invariant(m, last, now);
    laws::law_announcing_keeps_invariant(m, last_beacon, now);
}

/// Neither a step nor an answer changes the size of memory, lets the log of host words grow beyond
/// its bound, or breaks the invariant of the node: what a program does cannot make peers,
/// proposals, votes, goals or tasks repeat.
pub proof fn law_machine_stays_sound(v: VmV, r: ReplyV, t: Time)
    requires
        upkeep::sound(v),
    ensures
        upkeep::sound(machine::stepped(v, t)),
        upkeep::sound(machine::resumed(v, r, t)),
{
    reveal(machine::stepped);
    reveal(machine::resumed);
    reveal(machine::unasked);
    reveal(base::unframed);
    if machine::ready(v) {
        upkeep::lemma_worked(base::unframed(v), v.frames.last(), t);
    }
    if let Some(q) = v.pending {
        upkeep::lemma_answered(machine::unasked(v), q, r, t);
    }
}

/// While the sandbox is on, no step asks the host to write or delete a file, to post, or to run a
/// command; and no answer leads to such a request at all.
pub proof fn law_sandbox_writes_nothing(v: VmV, r: ReplyV, t: Time)
    requires
        v.sandbox,
        !upkeep::writes(v.pending),
    ensures
        !upkeep::writes(machine::stepped(v, t).pending),
        !upkeep::writes(machine::resumed(v, r, t).pending),
{
    reveal(machine::stepped);
    reveal(machine::resumed);
    reveal(machine::unasked);
    reveal(base::unframed);
    if machine::ready(v) {
        upkeep::lemma_worked(base::unframed(v), v.frames.last(), t);
    }
    if let Some(q) = v.pending {
        upkeep::lemma_answered(machine::unasked(v), q, r, t);
    }
}

// ---------------------------------------------------------------------------
// Time
// ---------------------------------------------------------------------------

/// A body that is at work when the time of a run is used up ends at once, and the run fails.
pub proof fn law_deadline_ends_body(v: VmV, t: Time)
    requires
        machine::ready(v),
        v.frames.last() matches FrameV::Body { body, ip } && ip < body.len(),
        machine::late(v, t),
    ensures
        ({
            let w = machine::stepped(v, t);
            &&& w.timed_out
            &&& w.frames == v.frames.drop_last()
            &&& w.stack == v.stack
            &&& !sandbox::outcome(w).success
            &&& sandbox::outcome(w).error.is_some()
        }),
{
    reveal(machine::stepped);
    reveal(machine::worked);
    reveal(machine::body_stepped);
    reveal(machine::overdue);
    reveal(base::unframed);
}

/// Once the time of a run is used up, every body that is still at work ends without effect.
pub proof fn law_timed_out_body_is_left(v: VmV, t: Time)
    requires
        machine::ready(v),
        v.frames.last() is Body,
        v.timed_out,
    ensures
        machine::stepped(v, t) == (VmV { frames: v.frames.drop_last(), ..v }),
{
    reveal(machine::stepped);
    reveal(machine::worked);
    reveal(machine::body_stepped);
    reveal(base::unframed);
}

// ---------------------------------------------------------------------------
// The sandbox
// ---------------------------------------------------------------------------

/// What can happen to a machine from outside.
pub enum Move {
    Step(Time),
    Answer(ReplyV, Time),
}

/// The machine after a move.
pub open spec fn after(v: VmV, m: Move) -> VmV {
    match m {
        Move::Step(t) => machine::stepped(v, t),
        Move::Answer(r, t) => machine::resumed(v, r, t),
    }
}

/// The machine after a row of moves.
pub open spec fn played(v: VmV, ms: Seq<Move>) -> VmV
    decreases ms.len(),
{
    if ms.len() == 0 {
        v
    } else {
        after(played(v, ms.drop_last()), ms.last())
    }
}

/// True of a machine that is still in the sandbox that it entered: what it was doing stands below,
/// and what it put aside is as it was.
pub open spec fn inside(v: VmV, w: VmV) -> bool {
    let n = v.frames.len() as int;
    &&& w.frames.len() > n
    &&& upkeep::kept(v.frames, w.frames)
    &&& w.frames[n] matches FrameV::Sandbox { saved, lines, next, after: a } && saved
        == sandbox::put_aside(v) && a is Return
}

/// True of a machine that is out of the sandbox again: its stacks, its definition, its output and
/// its limits are as they were.
pub open spec fn untouched(v: VmV, w: VmV) -> bool {
    &&& w.frames == v.frames
    &&& w.stack == v.stack
    &&& w.rstack == v.rstack
    &&& w.silent == v.silent
    &&& w.compiling == v.compiling
    &&& w.def == v.def
    &&& w.output == v.output
    &&& w.deadline == v.deadline
    &&& w.timed_out == v.timed_out
    &&& w.sandbox == v.sandbox
    &&& w.running
}

/// A step inside a sandbox stays inside, or comes out with the result and everything put back.
pub proof fn lemma_inside_step(v: VmV, w: VmV, t: Time)
    requires
        inside(v, w),
    ensures
        ({
            let x = machine::stepped(w, t);
            inside(v, x) || (untouched(v, x) && x.result.is_some() && x.pending == w.pending
                && !x.crashed)
        }),
{
    let n = v.frames.len() as int;
    let x = machine::stepped(w, t);
    if !machine::ready(w) {
        reveal(machine::stepped);
    } else if w.frames.len() > n + 1 {
        law_step_keeps_lower_frames(w, t);
        let d = w.frames.drop_last();
        assert(d[n] == w.frames[n]);
        assert(x.frames[n] == d[n]);
        assert forall|i: int| 0 <= i < n implies #[trigger] x.frames[i] == v.frames[i] by {
            assert(x.frames[i] == d[i]);
        }
    } else {
        let u = base::unframed(w);
        reveal(machine::stepped);
        reveal(machine::worked);
        reveal(machine::sandbox_stepped);
        reveal(base::unframed);
        assert(u.frames =~= v.frames);
        if let FrameV::Sandbox { saved, lines, next, after: a } = w.frames.last() {
            if sandbox::goes_on(u, lines.len(), next) {
                reveal(base::lined);
                reveal(base::framed);
                assert(x.frames == u.frames.push(
                    FrameV::Sandbox { saved, lines, next: (next + 1) as usize, after: a },
                ).push(FrameV::Line));
            } else {
                reveal(machine::followed);
                reveal(machine::with_result);
                reveal(sandbox::restored);
            }
        }
    }
}

/// An answer inside a sandbox stays inside.
pub proof fn lemma_inside_answer(v: VmV, w: VmV, r: ReplyV, t: Time)
    requires
        inside(v, w),
    ensures
        inside(v, machine::resumed(w, r, t)),
{
    let n = v.frames.len() as int;
    let x = machine::resumed(w, r, t);
    law_answer_keeps_frames(w, r, t);
    assert(x.frames[n] == w.frames[n]);
    assert forall|i: int| 0 <= i < n implies #[trigger] x.frames[i] == v.frames[i] by {
        assert(x.frames[i] == w.frames[i]);
    }
}

/// A machine that has just entered a sandbox is inside it.
pub proof fn lemma_inside_begin(v: VmV, code: Seq<char>, t: Time)
    ensures
        inside(v, sandbox::confined(v, code, AfterV::Return, t)),
{
    reveal(sandbox::confined);
    reveal(base::framed);
}

/// Whatever code runs in a sandbox, and whatever the host answers: the machine is inside the
/// sandbox until it comes out with a result, and then its stacks, its definition, its output and
/// its limits are as they were before.
pub proof fn law_sandbox_isolates(v: VmV, code: Seq<char>, t: Time, ms: Seq<Move>)
    ensures
        ({
            let b = sandbox::confined(v, code, AfterV::Return, t);
            inside(v, played(b, ms)) || exists|k: int|
                0 <= k <= ms.len() && left_at(v, b, #[trigger] ms.take(k))
        }),
    decreases ms.len(),
{
    let b = sandbox::confined(v, code, AfterV::Return, t);
    if ms.len() == 0 {
        lemma_inside_begin(v, code, t);
    } else {
        let p = ms.drop_last();
        law_sandbox_isolates(v, code, t, p);
        if inside(v, played(b, p)) {
            match ms.last() {
                Move::Step(s) => lemma_inside_step(v, played(b, p), s),
                Move::Answer(r, s) => lemma_inside_answer(v, played(b, p), r, s),
            }
            if !inside(v, played(b, ms)) {
                assert(ms.take(ms.len() as int) =~= ms);
                assert(left_at(v, b, ms.take(ms.len() as int)));
            }
        } else {
            let k = choose|k: int| 0 <= k <= p.len() && left_at(v, b, #[trigger] p.take(k));
            assert(p.take(k) =~= ms.take(k));
        }
    }
}

/// True if a machine that entered a sandbox leaves it with the last of these moves.
pub open spec fn left_at(v: VmV, b: VmV, ms: Seq<Move>) -> bool {
    &&& untouched(v, played(b, ms))
    &&& played(b, ms).result.is_some()
    &&& ms.len() > 0
    &&& inside(v, played(b, ms.drop_last()))
}

} // verus!
