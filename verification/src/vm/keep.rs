//! Words on identity and persistence.

use crate::mesh::node::{id_to_hex, MeshV};
use crate::persist;
use crate::persist::{deserialize_snapshot, snapshot_names, SnapV, VmSnapshot};
use crate::text;
use crate::text::{push_i64, push_u64, push_usize, text};
use crate::vm::base;
use crate::vm::family;
use crate::vm::host;
use crate::vm::net;
use crate::vm::sandbox;
use crate::vm::state;
use crate::vm::state::{Reply, ReplyV, Request, RequestV, Time, VmV, VM};
use crate::wire;
use crate::wire::NodeId;
use vstd::prelude::*;

verus! {

// ---------------------------------------------------------------------------
// Saving
// ---------------------------------------------------------------------------

/// SAVE ( -- )
#[verifier::opaque]
pub open spec fn p_save(v: VmV) -> VmV {
    match v.node_id {
        Some(id) => base::asked(
            v,
            RequestV::SaveState { id, data: sandbox::snapshot_bytes(v), quiet: false },
        ),
        None => base::emit(v, "save: no node ID (mesh offline)\n"@),
    }
}

/// SAVE once the state is kept in a directory, or is not.
#[verifier::opaque]
pub open spec fn state_saved(v: VmV, n: nat, quiet: bool, r: ReplyV) -> VmV {
    if quiet {
        v
    } else {
        match r {
            ReplyV::Text(dir) => base::emit(
                v,
                "saved "@ + text::dec(n) + " bytes to "@ + dir + "\n"@,
            ),
            _ => base::emit(v, "save failed: "@ + host::fault_of(r) + "\n"@),
        }
    }
}

/// AUTO-SAVE ( -- )
#[verifier::opaque]
pub open spec fn p_auto_save(v: VmV) -> VmV {
    base::emit(
        with_auto_save(v, !v.auto_save),
        "auto-save: "@ + (if v.auto_save {
            "OFF"@
        } else {
            "ON"@
        }) + " (every "@ + text::dec(v.save_every as nat) + " tasks)\n"@,
    )
}

/// The machine with automatic saving on or off.
#[verifier::opaque]
pub open spec fn with_auto_save(v: VmV, on: bool) -> VmV {
    VmV { auto_save: on, ..v }
}

/// The machine as it stops.
#[verifier::opaque]
pub open spec fn stopped(v: VmV) -> VmV {
    VmV { running: false, ..v }
}

/// BYE ( -- )
#[verifier::opaque]
pub open spec fn p_bye(v: VmV) -> VmV {
    let data = sandbox::snapshot_bytes(v);
    let w = stopped(v);
    match v.node_id {
        Some(id) => if v.auto_save {
            base::asked(w, RequestV::SaveState { id, data, quiet: true })
        } else {
            w
        },
        None => w,
    }
}

impl VM {
    pub(crate) fn prim_save(&mut self)
        ensures
            final(self)@ == p_save(old(self)@),
    {
        reveal(p_save);
        match self.node_id_cache {
            Some(id) => {
                let data = self.snapshot_data();
                self.ask(Request::SaveState { id, data, quiet: false });
            },
            None => self.emit_str("save: no node ID (mesh offline)\n"),
        }
    }

    pub(crate) fn resume_save(&mut self, n: usize, quiet: bool, r: &Reply)
        ensures
            final(self)@ == state_saved(old(self)@, n as nat, quiet, r@),
    {
        reveal(state_saved);
        if quiet {
            return ;
        }
        match r {
            Reply::Text(dir) => {
                let mut s = text("saved ");
                push_usize(&mut s, n);
                s.append(" bytes to ");
                s.append(dir.as_str());
                s.append("\n");
                self.emit_str(s.as_str());
            },
            _ => {
                let e = host::fault_text(r);
                self.say_fault("save failed: ", e.as_str());
            },
        }
    }

    fn set_auto_save(&mut self, on: bool)
        ensures
            final(self)@ == with_auto_save(old(self)@, on),
    {
        reveal(with_auto_save);
        self.auto_save_enabled = on;
    }

    pub(crate) fn prim_auto_save(&mut self)
        ensures
            final(self)@ == p_auto_save(old(self)@),
    {
        reveal(p_auto_save);
        let on = !self.auto_save_enabled;
        let every = self.auto_save_interval;
        self.set_auto_save(on);
        let mut s = text("auto-save: ");
        if on {
            s.append("ON");
        } else {
            s.append("OFF");
        }
        s.append(" (every ");
        push_u64(&mut s, every as u64);
        s.append(" tasks)\n");
        self.emit_str(s.as_str());
    }

    fn stop(&mut self)
        ensures
            final(self)@ == stopped(old(self)@),
    {
        reveal(stopped);
        self.running = false;
    }

    pub(crate) fn prim_bye(&mut self)
        ensures
            final(self)@ == p_bye(old(self)@),
    {
        reveal(p_bye);
        let data = self.snapshot_data();
        let id = self.node_id_cache;
        let save = self.auto_save_enabled;
        self.stop();
        if let Some(id) = id {
            if save {
                self.ask(Request::SaveState { id, data, quiet: true });
            }
        }
    }
}

// ---------------------------------------------------------------------------
// Restoring
// ---------------------------------------------------------------------------

/// The machine with the dictionary, memory, fitness and texts of a snapshot.
#[verifier::opaque]
pub open spec fn reloaded(v: VmV, s: SnapV) -> VmV {
    VmV {
        dict: s.dictionary,
        memory: s.memory,
        here: s.here,
        fitness: s.fitness,
        codes: s.code_strings,
        ..v
    }
}

/// The machine with everything that a snapshot holds. The goals go to the node, if there is one.
#[verifier::opaque]
pub open spec fn snapshot_restored(v: VmV, s: SnapV) -> VmV {
    let w = reloaded(v, s);
    match v.mesh {
        Some(m) => net::with_mesh(w, (MeshV { goals: s.goals, ..m })),
        None => w,
    }
}

/// The snapshot that bytes hold, if they hold one.
pub open spec fn snapshot_in(data: Seq<u8>) -> Option<SnapV> {
    let (s, i) = persist::get_snapshot(wire::input(data));
    if i.ok {
        Some(s)
    } else {
        None
    }
}

/// LOAD-STATE ( -- )
#[verifier::opaque]
pub open spec fn p_load_state(v: VmV) -> VmV {
    match v.node_id {
        Some(id) => base::asked(v, RequestV::LoadState { id }),
        None => base::emit(v, "load: no node ID\n"@),
    }
}

/// LOAD-STATE with the content of the state file.
#[verifier::opaque]
pub open spec fn state_loaded(v: VmV, r: ReplyV) -> VmV {
    match r {
        ReplyV::Bytes(data) => match snapshot_in(data) {
            Some(s) => base::emit(snapshot_restored(v, s), "state restored\n"@),
            None => base::emit(v, "load: corrupt state file\n"@),
        },
        _ => base::emit(v, "load: no saved state\n"@),
    }
}

/// SNAPSHOTS ( -- )
#[verifier::opaque]
pub open spec fn p_snapshots(v: VmV) -> VmV {
    match v.node_id {
        Some(id) => base::asked(v, RequestV::ListSnapshots { id }),
        None => v,
    }
}

/// SNAPSHOTS with the names of the files among which the snapshots are.
#[verifier::opaque]
pub open spec fn snapshots_listed(v: VmV, r: ReplyV) -> VmV {
    let names = persist::names_of(
        match r {
            ReplyV::Names(files) => files,
            _ => Seq::empty(),
        },
    );
    if names.len() == 0 {
        base::emit(v, "  (no snapshots)\n"@)
    } else {
        base::emit(v, host::io_lines(names))
    }
}

/// SNAPSHOT ( -- ) The name of a snapshot is its time stamp.
#[verifier::opaque]
pub open spec fn p_snapshot(v: VmV, t: Time) -> VmV {
    match v.node_id {
        Some(id) => base::asked(
            v,
            RequestV::SaveSnapshot {
                id,
                name: text::dec(net::seconds(t) as nat),
                data: sandbox::snapshot_bytes(v),
            },
        ),
        None => v,
    }
}

/// SNAPSHOT once the snapshot is kept, or is not.
#[verifier::opaque]
pub open spec fn snapshot_kept(v: VmV, name: Seq<char>, r: ReplyV) -> VmV {
    match r {
        ReplyV::Done => base::emit(v, "snapshot: "@ + name + "\n"@),
        _ => base::emit(v, "snapshot failed: "@ + host::fault_of(r) + "\n"@),
    }
}

/// RESTORE ( n -- )
#[verifier::opaque]
pub open spec fn p_restore(v: VmV) -> VmV {
    let (x, v) = base::popped(v);
    match v.node_id {
        Some(id) => base::asked(v, RequestV::LoadSnapshot { id, name: text::dec_int(x as int) }),
        None => v,
    }
}

/// RESTORE with the content of the snapshot's file.
#[verifier::opaque]
pub open spec fn snapshot_loaded(v: VmV, name: Seq<char>, r: ReplyV) -> VmV {
    match r {
        ReplyV::Bytes(data) => match snapshot_in(data) {
            Some(s) => base::emit(
                snapshot_restored(v, s),
                "restored snapshot "@ + name + "\n"@,
            ),
            None => base::emit(v, "restore: corrupt snapshot\n"@),
        },
        _ => base::emit(v, "snapshot "@ + name + " not found\n"@),
    }
}

impl VM {
    fn reload(&mut self, s: VmSnapshot) -> (g: crate::goals::GoalRegistry)
        ensures
            g@ == s@.goals,
            final(self)@ == reloaded(old(self)@, s@),
    {
        reveal(reloaded);
        self.dictionary = s.dictionary;
        self.memory = s.memory;
        self.here = s.here;
        self.fitness = s.fitness;
        self.code_strings = s.code_strings;
        s.goals
    }

    /// Takes over everything that a snapshot holds.
    pub fn restore_snapshot(&mut self, s: VmSnapshot)
        ensures
            final(self)@ == snapshot_restored(old(self)@, s@),
    {
        reveal(snapshot_restored);
        let ghost v = self@;
        let ghost w = reloaded(v, s@);
        assert(w.mesh == v.mesh) by {
            reveal(reloaded);
        }
        let goals = self.reload(s);
        if let Some(mut m) = self.take_mesh() {
            m.goals = goals;
            self.put_mesh(m);
        }
    }

    pub(crate) fn prim_load_state(&mut self)
        ensures
            final(self)@ == p_load_state(old(self)@),
    {
        reveal(p_load_state);
        match self.node_id_cache {
            Some(id) => self.ask(Request::LoadState { id }),
            None => self.emit_str("load: no node ID\n"),
        }
    }

    pub(crate) fn resume_load(&mut self, r: &Reply)
        ensures
            final(self)@ == state_loaded(old(self)@, r@),
    {
        reveal(state_loaded);
        match r {
            Reply::Bytes(data) => match deserialize_snapshot(data) {
                Some(s) => {
                    self.restore_snapshot(s);
                    self.emit_str("state restored\n");
                },
                None => self.emit_str("load: corrupt state file\n"),
            },
            _ => self.emit_str("load: no saved state\n"),
        }
    }

    pub(crate) fn prim_snapshots(&mut self)
        ensures
            final(self)@ == p_snapshots(old(self)@),
    {
        reveal(p_snapshots);
        if let Some(id) = self.node_id_cache {
            self.ask(Request::ListSnapshots { id });
        }
    }

    pub(crate) fn resume_snapshots(&mut self, r: &Reply)
        ensures
            final(self)@ == snapshots_listed(old(self)@, r@),
    {
        reveal(snapshots_listed);
        let names = match r {
            Reply::Names(files) => snapshot_names(files),
            _ => Vec::new(),
        };
        assert(!(r is Names) ==> text::texts(names@) =~= persist::names_of(Seq::empty()));
        if names.len() == 0 {
            self.emit_str("  (no snapshots)\n");
        } else {
            let s = host::format_names(&names);
            self.emit_str(s.as_str());
        }
    }

    pub(crate) fn prim_snapshot(&mut self, t: Time)
        ensures
            final(self)@ == p_snapshot(old(self)@, t),
    {
        reveal(p_snapshot);
        if let Some(id) = self.node_id_cache {
            let data = self.snapshot_data();
            let mut name = String::new();
            push_u64(&mut name, t.epoch / 1000);
            assert(name@ =~= text::dec(net::seconds(t) as nat));
            self.ask(Request::SaveSnapshot { id, name, data });
        }
    }

    pub(crate) fn resume_snapshot(&mut self, name: &str, r: &Reply)
        ensures
            final(self)@ == snapshot_kept(old(self)@, name@, r@),
    {
        reveal(snapshot_kept);
        match r {
            Reply::Done => self.say_fault("snapshot: ", name),
            _ => {
                let e = host::fault_text(r);
                self.say_fault("snapshot failed: ", e.as_str());
            },
        }
    }

    pub(crate) fn prim_restore(&mut self)
        ensures
            final(self)@ == p_restore(old(self)@),
    {
        reveal(p_restore);
        let x = self.pop();
        if let Some(id) = self.node_id_cache {
            let mut name = String::new();
            push_i64(&mut name, x);
            assert(name@ =~= text::dec_int(x as int));
            self.ask(Request::LoadSnapshot { id, name });
        }
    }

    pub(crate) fn resume_restore(&mut self, name: &str, r: &Reply)
        ensures
            final(self)@ == snapshot_loaded(old(self)@, name@, r@),
    {
        reveal(snapshot_loaded);
        match r {
            Reply::Bytes(data) => match deserialize_snapshot(data) {
                Some(s) => {
                    self.restore_snapshot(s);
                    self.say_fault("restored snapshot ", name);
                },
                None => self.emit_str("restore: corrupt snapshot\n"),
            },
            _ => {
                let mut s = text("snapshot ");
                s.append(name);
                s.append(" not found\n");
                self.emit_str(s.as_str());
            },
        }
    }
}

// ---------------------------------------------------------------------------
// Identity
// ---------------------------------------------------------------------------

/// RESET ( -- )
#[verifier::opaque]
pub open spec fn p_reset(v: VmV) -> VmV {
    base::asked(v, RequestV::Forget { id: v.node_id })
}

/// RESET once everything is gone.
#[verifier::opaque]
pub open spec fn forgotten(v: VmV) -> VmV {
    base::emit(v, "state and identity deleted \u{2014} restart for fresh boot\n"@)
}

/// REIDENTIFY ( -- )
#[verifier::opaque]
pub open spec fn p_reidentify(v: VmV) -> VmV {
    base::asked(v, RequestV::Reidentify { old: v.node_id })
}

/// The machine with another identity.
#[verifier::opaque]
pub open spec fn with_id(v: VmV, id: Seq<u8>) -> VmV {
    VmV { node_id: Some(id), ..v }
}

/// REIDENTIFY with the new identity. A host without random numbers gives none, and the identity
/// is zero.
#[verifier::opaque]
pub open spec fn reidentified(v: VmV, was: Option<Seq<u8>>, r: ReplyV) -> VmV {
    let id = match r {
        ReplyV::Identity(id) => id,
        _ => wire::zero_id(),
    };
    base::emit(
        with_id(v, id),
        "reidentified: "@ + family::id_or(was, "none"@) + " -> "@ + text::hex(id) + "\n"@,
    )
}

impl VM {
    pub(crate) fn prim_reset(&mut self)
        ensures
            final(self)@ == p_reset(old(self)@),
    {
        reveal(p_reset);
        let id = self.node_id_cache;
        self.ask(Request::Forget { id });
    }

    pub(crate) fn resume_reset(&mut self)
        ensures
            final(self)@ == forgotten(old(self)@),
    {
        reveal(forgotten);
        self.emit_str("state and identity deleted \u{2014} restart for fresh boot\n");
    }

    pub(crate) fn prim_reidentify(&mut self)
        ensures
            final(self)@ == p_reidentify(old(self)@),
    {
        reveal(p_reidentify);
        let id = self.node_id_cache;
        self.ask(Request::Reidentify { old: id });
    }

    fn set_id(&mut self, id: NodeId)
        ensures
            final(self)@ == with_id(old(self)@, id@),
    {
        reveal(with_id);
        self.node_id_cache = Some(id);
    }

    pub(crate) fn resume_reidentify(&mut self, was: &Option<NodeId>, r: &Reply)
        ensures
            final(self)@ == reidentified(old(self)@, crate::goals::opt_id(*was), r@),
    {
        reveal(reidentified);
        let id: NodeId = match r {
            Reply::Identity(id) => *id,
            _ => [0u8; 8],
        };
        assert(!(r is Identity) ==> id@ =~= wire::zero_id());
        self.set_id(id);
        let mut s = text("reidentified: ");
        let a = family::hex_or(was, "none");
        s.append(a.as_str());
        s.append(" -> ");
        let b = id_to_hex(&id);
        s.append(b.as_str());
        s.append("\n");
        self.emit_str(s.as_str());
    }
}

/// A machine that loads what it saved has its dictionary, fitness and texts back, and its memory
/// as far as it is in use.
pub proof fn law_save_load(v: VmV, w: VmV)
    requires
        persist::snapshot_fits(sandbox::snapshot(v)),
        crate::goals::goals_wf(sandbox::snapshot(v).goals),
    ensures
        state_loaded(w, ReplyV::Bytes(sandbox::snapshot_bytes(v))) == base::emit(
            snapshot_restored(w, persist::kept(sandbox::snapshot(v))),
            "state restored\n"@,
        ),
        ({
            let s = persist::kept(sandbox::snapshot(v));
            let r = snapshot_restored(w, s);
            &&& r.dict == v.dict
            &&& r.fitness == s.fitness
            &&& r.codes == v.codes
            &&& r.here == v.here
            &&& r.stack == w.stack
        }),
{
    reveal(state_loaded);
    reveal(snapshot_restored);
    reveal(reloaded);
    reveal(net::with_mesh);
    reveal(sandbox::snapshot_bytes);
    let s = sandbox::snapshot(v);
    persist::law_snapshot_roundtrip(s, Seq::empty());
    assert(persist::w_snapshot(s) + Seq::<u8>::empty() =~= persist::w_snapshot(s));
}

/// A machine that loads what another saved says so and has all that the other had: words, texts of
/// code, score and counts, every cell in use, and, where both are on a mesh, goals and tasks. Its
/// stack stays its own.
#[verifier::spinoff_prover]
#[verifier::rlimit(40)]
pub proof fn law_loading_brings_back(v: VmV, w: VmV)
    requires
        persist::snapshot_fits(sandbox::snapshot(v)),
        crate::goals::goals_wf(sandbox::snapshot(v).goals),
    ensures
        ({
            let r = state_loaded(w, ReplyV::Bytes(sandbox::snapshot_bytes(v)));
            &&& r.output == base::emit(w, "state restored\n"@).output
            &&& r.dict == v.dict && r.here == v.here && r.codes == v.codes
            &&& r.fitness.score == v.fitness.score
            &&& r.fitness.tasks_completed == v.fitness.tasks_completed
            &&& r.fitness.tasks_failed == v.fitness.tasks_failed
            &&& r.fitness.total_time_ms == v.fitness.total_time_ms
            &&& r.fitness.evolution_count == v.fitness.evolution_count
            &&& r.memory.len() == 65536
            &&& forall|i: int|
                0 <= i < v.here && i < v.memory.len() && i < 65536 ==> #[trigger] r.memory[i]
                    == v.memory[i]
            &&& r.stack == w.stack
            &&& v.mesh matches Some(m) ==> w.mesh.is_some() ==> (r.mesh matches Some(k)
                && k.goals.goals == m.goals.goals && k.goals.tasks.len() == m.goals.tasks.len()
                && forall|i: int|
                0 <= i < m.goals.tasks.len() ==> persist::survives(
                    m.goals.tasks[i],
                    #[trigger] k.goals.tasks[i],
                ))
        }),
{
    reveal(base::emit);
    reveal(snapshot_restored);
    reveal(reloaded);
    reveal(net::with_mesh);
    law_save_load(v, w);
    persist::lemma_kept_survives(sandbox::snapshot(v));
}

} // verus!
