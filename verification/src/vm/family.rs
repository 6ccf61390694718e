//! Words on children, packages and replication.

use crate::mesh::node::id_to_hex;
use crate::prelude::{prelude, PRELUDE};
use crate::spawn;
use crate::spawn::{build_package, seconds_since, ChildInfo, ChildV, SpawnState, SpawnV, HEADER_SIZE};
use crate::text;
use crate::text::{push_u64, push_usize, text};
use crate::types::Cell;
use crate::vm::base;
use crate::vm::goal_words;
use crate::vm::host;
use crate::vm::net;
use crate::vm::sandbox;
use crate::vm::state;
use crate::vm::state::{
    Frame, FrameV, Packing, PackingV, Reply, ReplyV, Request, RequestV, Time, VmV, VM,
};
use crate::wire::NodeId;
use vstd::prelude::*;
use vstd::utf8::*;

verus! {

/// The number of the word REPLICATE-TO".
pub const P_REPLICATE_TO: usize = 228;

/// The machine with other children or other rules for them.
#[verifier::opaque]
pub open spec fn with_spawn(v: VmV, s: SpawnV) -> VmV {
    VmV { spawn: s, ..v }
}

impl VM {
    /// Takes the spawning state out, to be put back changed.
    fn take_spawn(&mut self) -> (s: SpawnState)
        ensures
            s@ == old(self)@.spawn,
            with_spawn(final(self)@, s@) == old(self)@,
            forall|n: SpawnV| #[trigger] with_spawn(final(self)@, n) == with_spawn(old(self)@, n),
    {
        reveal(with_spawn);
        let mut s = SpawnState::new();
        std::mem::swap(&mut self.spawn_state, &mut s);
        s
    }

    /// Puts the spawning state back.
    fn put_spawn(&mut self, s: SpawnState)
        ensures
            final(self)@ == with_spawn(old(self)@, s@),
    {
        reveal(with_spawn);
        self.spawn_state = s;
    }

    /// Shows what went wrong with a word.
    pub(crate) fn say_fault(&mut self, what: &str, e: &str)
        ensures
            final(self)@ == base::emit(old(self)@, what@ + e@ + "\n"@),
    {
        let mut s = text(what);
        s.append(e);
        s.append("\n");
        self.emit_str(s.as_str());
    }
}

// ---------------------------------------------------------------------------
// Packages
// ---------------------------------------------------------------------------

/// A package of an executable and a state.
pub open spec fn packed(binary: Seq<u8>, state: Seq<u8>) -> Seq<u8> {
    spawn::package(binary, state, encode_utf8(PRELUDE@))
}

/// The machine as it asks for its executable.
#[verifier::opaque]
pub open spec fn packing(v: VmV, purpose: PackingV) -> VmV {
    base::asked(v, RequestV::Binary { purpose, state: sandbox::snapshot_bytes(v) })
}

/// PACKAGE ( -- addr n )
#[verifier::opaque]
pub open spec fn p_package(v: VmV) -> VmV {
    packing(v, PackingV::Store)
}

/// PACKAGE-SIZE ( -- n )
#[verifier::opaque]
pub open spec fn p_package_size(v: VmV) -> VmV {
    packing(v, PackingV::Size)
}

/// REPLICATE-TO" address" ( -- )
#[verifier::opaque]
pub open spec fn p_replicate_to(v: VmV) -> VmV {
    let (s, v) = base::parsed(v, '"');
    if v.compiling {
        goal_words::with_text_op(v, s, P_REPLICATE_TO)
    } else {
        packing(v, PackingV::Send { addr: s })
    }
}

/// SPAWN ( -- )
#[verifier::opaque]
pub open spec fn p_spawn(v: VmV, t: Time) -> VmV {
    match spawn::spawn_refusal(v.spawn, t.now) {
        Some(e) => base::emit(v, "SPAWN: "@ + e + "\n"@),
        None => packing(v, PackingV::Spawn),
    }
}

/// The port at which the node listens.
pub open spec fn own_port(v: VmV) -> u16 {
    match v.mesh {
        Some(m) => m.port,
        None => 0,
    }
}

/// The machine as it asks for a child.
#[verifier::opaque]
pub open spec fn child_wanted(v: VmV, package: Seq<u8>, arrived: bool) -> VmV {
    base::asked(
        v,
        RequestV::SpawnPackage {
            package,
            port: own_port(v),
            generation: v.spawn.generation.wrapping_add(1),
            arrived,
        },
    )
}

/// PACKAGE once the package is there.
#[verifier::opaque]
pub open spec fn package_stored(v: VmV, p: Seq<u8>) -> VmV {
    base::emit(net::padded(v, p), "package: "@ + text::dec(p.len()) + " bytes\n"@)
}

/// PACKAGE-SIZE once the size of the executable is known.
#[verifier::opaque]
pub open spec fn size_told(v: VmV, binary: nat, state: nat) -> VmV {
    let n = HEADER_SIZE + binary + state + encode_utf8(PRELUDE@).len();
    if n <= usize::MAX {
        base::emit(
            base::pushed(v, n as usize as i64),
            "package size: "@ + text::dec(n as nat) + " bytes\n"@,
        )
    } else {
        base::crash(v)
    }
}

/// The machine with its executable at hand, or told why it is not.
#[verifier::opaque]
pub open spec fn binary_read(v: VmV, purpose: PackingV, state: Seq<u8>, r: ReplyV) -> VmV {
    match r {
        ReplyV::Bytes(b) => match purpose {
            PackingV::Spawn => child_wanted(v, packed(b, state), false),
            PackingV::Store => package_stored(v, packed(b, state)),
            PackingV::Size => size_told(v, b.len(), state.len()),
            PackingV::Send { addr } => base::asked(
                v,
                RequestV::SendPackage { addr, package: packed(b, state) },
            ),
        },
        _ => {
            let e = host::fault_of(r);
            match purpose {
                PackingV::Spawn => base::emit(v, "SPAWN: "@ + e + "\n"@),
                PackingV::Store => base::pushed(
                    base::pushed(base::emit(v, "PACKAGE: "@ + e + "\n"@), 0),
                    0,
                ),
                PackingV::Size => base::pushed(base::emit(v, "PACKAGE-SIZE: "@ + e + "\n"@), 0),
                PackingV::Send { addr } => base::emit(v, "REPLICATE-TO: "@ + e + "\n"@),
            }
        },
    }
}

/// REPLICATE-TO" once the package has been sent, or not.
#[verifier::opaque]
pub open spec fn package_sent(v: VmV, addr: Seq<char>, n: nat, r: ReplyV) -> VmV {
    match r {
        ReplyV::Done => base::emit(
            v,
            "sent "@ + text::dec(n) + " bytes to "@ + addr + "\n"@,
        ),
        _ => base::emit(v, "REPLICATE-TO: "@ + host::fault_of(r) + "\n"@),
    }
}

fn make_package(binary: &Vec<u8>, state: &[u8]) -> (p: Vec<u8>)
    ensures
        p@ == packed(binary@, state@),
{
    let mut copy: Vec<u8> = Vec::new();
    crate::wire::write_bytes(&mut copy, binary);
    assert(copy@ =~= binary@);
    match build_package(Ok(copy), state, prelude().as_bytes()) {
        Ok(p) => p,
        Err(_) => Vec::new(),
    }
}

impl VM {
    fn begin_packing(&mut self, purpose: Packing)
        ensures
            final(self)@ == packing(old(self)@, purpose@),
    {
        reveal(packing);
        let state = self.snapshot_data();
        self.ask(Request::Binary { purpose, state });
    }

    pub(crate) fn prim_package(&mut self)
        ensures
            final(self)@ == p_package(old(self)@),
    {
        reveal(p_package);
        self.begin_packing(Packing::Store);
    }

    pub(crate) fn prim_package_size(&mut self)
        ensures
            final(self)@ == p_package_size(old(self)@),
    {
        reveal(p_package_size);
        self.begin_packing(Packing::Size);
    }

    pub(crate) fn prim_replicate_to(&mut self)
        ensures
            final(self)@ == p_replicate_to(old(self)@),
    {
        reveal(p_replicate_to);
        let s = self.parse_until('"');
        if self.compiling {
            self.compile_text_op(s, P_REPLICATE_TO);
        } else {
            self.begin_packing(Packing::Send { addr: s });
        }
    }

    pub(crate) fn prim_spawn(&mut self, t: Time)
        ensures
            final(self)@ == p_spawn(old(self)@, t),
    {
        reveal(p_spawn);
        match self.spawn_state.can_spawn(t.now) {
            Err(e) => self.say_fault("SPAWN: ", e.as_str()),
            Ok(_) => self.begin_packing(Packing::Spawn),
        }
    }

    fn want_child(&mut self, package: Vec<u8>, arrived: bool)
        ensures
            final(self)@ == child_wanted(old(self)@, package@, arrived),
    {
        reveal(child_wanted);
        let port: u16 = match &self.mesh {
            Some(m) => m.local_port(),
            None => 0,
        };
        let generation = self.spawn_state.generation.wrapping_add(1);
        self.ask(Request::SpawnPackage { package, port, generation, arrived });
    }

    fn store_package(&mut self, p: &[u8])
        ensures
            final(self)@ == package_stored(old(self)@, p@),
    {
        reveal(package_stored);
        self.give_bytes(p);
        let mut s = text("package: ");
        push_usize(&mut s, p.len());
        s.append(" bytes\n");
        self.emit_str(s.as_str());
    }

    fn tell_size(&mut self, binary: usize, state: usize)
        ensures
            final(self)@ == size_told(old(self)@, binary as nat, state as nat),
    {
        reveal(size_told);
        let p = prelude().as_bytes().len();
        let n: u128 = HEADER_SIZE as u128 + binary as u128 + state as u128 + p as u128;
        if n <= usize::MAX as u128 {
            match spawn::package_size_estimate(Ok(binary), state, p) {
                Ok(n) => {
                    self.push(n as Cell);
                    let mut s = text("package size: ");
                    push_usize(&mut s, n);
                    s.append(" bytes\n");
                    self.emit_str(s.as_str());
                },
                Err(_) => {},
            }
        } else {
            self.crash();
        }
    }

    pub(crate) fn resume_binary(&mut self, purpose: &Packing, state: &[u8], r: &Reply)
        ensures
            final(self)@ == binary_read(old(self)@, purpose@, state@, r@),
    {
        reveal(binary_read);
        match r {
            Reply::Bytes(b) => {
                match purpose {
                    Packing::Spawn => {
                        let p = make_package(b, state);
                        self.want_child(p, false);
                    },
                    Packing::Store => {
                        let p = make_package(b, state);
                        self.store_package(&p);
                    },
                    Packing::Size => self.tell_size(b.len(), state.len()),
                    Packing::Send { addr } => {
                        let package = make_package(b, state);
                        self.ask(Request::SendPackage { addr: addr.clone(), package });
                    },
                }
            },
            _ => {
                let e = host::fault_text(r);
                match purpose {
                    Packing::Spawn => self.say_fault("SPAWN: ", e.as_str()),
                    Packing::Store => {
                        self.say_fault("PACKAGE: ", e.as_str());
                        self.push(0);
                        self.push(0);
                    },
                    Packing::Size => {
                        self.say_fault("PACKAGE-SIZE: ", e.as_str());
                        self.push(0);
                    },
                    Packing::Send { addr } => self.say_fault("REPLICATE-TO: ", e.as_str()),
                }
            },
        }
    }

    pub(crate) fn resume_send(&mut self, addr: &str, n: usize, r: &Reply)
        ensures
            final(self)@ == package_sent(old(self)@, addr@, n as nat, r@),
    {
        reveal(package_sent);
        match r {
            Reply::Done => {
                let mut s = text("sent ");
                push_usize(&mut s, n);
                s.append(" bytes to ");
                s.append(addr);
                s.append("\n");
                self.emit_str(s.as_str());
            },
            _ => {
                let e = host::fault_text(r);
                self.say_fault("REPLICATE-TO: ", e.as_str());
            },
        }
    }
}

// ---------------------------------------------------------------------------
// Children
// ---------------------------------------------------------------------------

/// The family with one more child.
pub open spec fn with_child(s: SpawnV, c: ChildV) -> SpawnV {
    SpawnV { children: s.children.push(c), ..s }
}

/// The text of a new child.
pub open spec fn child_text(pid: u32, id: Seq<u8>) -> Seq<char> {
    "spawned child pid="@ + text::dec(pid as nat) + " id="@ + text::hex(id) + "\n"@
}

/// SPAWN once the child runs, or does not.
#[verifier::opaque]
pub open spec fn child_started(v: VmV, r: ReplyV, t: Time) -> VmV {
    match r {
        ReplyV::Child { pid, port, id } => base::emit(
            with_spawn(
                v,
                (SpawnV {
                    last_spawn: Some(t.now),
                    ..with_child(
                        v.spawn,
                        ChildV { pid, port, node_id: id, spawned_at: t.now },
                    )
                }),
            ),
            child_text(pid, id),
        ),
        _ => base::emit(v, "SPAWN: "@ + host::fault_of(r) + "\n"@),
    }
}

/// A package that arrived, once the child runs, or does not.
#[verifier::opaque]
pub open spec fn child_adopted(v: VmV, r: ReplyV, t: Time) -> VmV {
    match r {
        ReplyV::Child { pid, port, id } => base::printed(
            with_spawn(
                v,
                with_child(v.spawn, ChildV { pid, port: 0, node_id: id, spawned_at: t.now }),
            ),
            "[repl] "@ + child_text(pid, id),
        ),
        _ => base::complained(v, "[repl] spawn failed: "@ + host::fault_of(r) + "\n"@),
    }
}

/// The machine as it asks for a package that has arrived, unless it accepts none.
#[verifier::opaque]
pub open spec fn incoming_checked(v: VmV) -> VmV {
    if v.spawn.quarantine || !v.spawn.accept_replicate || v.mesh.is_none() {
        v
    } else {
        base::asked(v, RequestV::Incoming)
    }
}

/// The machine with a package that has arrived, or none.
#[verifier::opaque]
pub open spec fn package_arrived(v: VmV, r: ReplyV) -> VmV {
    match r {
        ReplyV::Bytes(p) => child_wanted(v, p, true),
        _ => v,
    }
}

/// A batch of children: the pause between two children is waived.
#[verifier::opaque]
pub open spec fn next_spawned(v: VmV, next: usize, count: usize, t: Time) -> VmV {
    if next < count {
        let v = base::framed(v, FrameV::SpawnMany { next: (next + 1) as usize, count });
        if next > 0 {
            p_spawn(with_spawn(v, (SpawnV { last_spawn: None, ..v.spawn })), t)
        } else {
            p_spawn(v, t)
        }
    } else {
        v
    }
}

/// SPAWN-N ( n -- )
#[verifier::opaque]
pub open spec fn p_spawn_n(v: VmV) -> VmV {
    let (n, v) = base::popped(v);
    base::framed(v, FrameV::SpawnMany { next: 0, count: n as usize })
}

/// Children as lines.
pub open spec fn child_lines(s: Seq<ChildV>, now: u64) -> Seq<char>
    decreases s.len(),
{
    if s.len() == 0 {
        Seq::empty()
    } else {
        child_lines(s.drop_last(), now) + ("  pid="@ + text::dec(s.last().pid as nat) + " id="@
            + text::hex(s.last().node_id) + " age="@ + text::dec(
            spawn::seconds_between(s.last().spawned_at, now) as nat,
        ) + "s\n"@)
    }
}

/// CHILDREN ( -- )
#[verifier::opaque]
pub open spec fn p_children(v: VmV, t: Time) -> VmV {
    if v.spawn.children.len() == 0 {
        base::emit(v, "  (no children)\n"@)
    } else {
        base::emit(v, child_lines(v.spawn.children, t.now))
    }
}

/// The hexadecimal form of an identity, or a word in its place.
pub open spec fn id_or(id: Option<Seq<u8>>, otherwise: Seq<char>) -> Seq<char> {
    match id {
        Some(x) => text::hex(x),
        None => otherwise,
    }
}

/// FAMILY ( -- )
#[verifier::opaque]
pub open spec fn p_family(v: VmV) -> VmV {
    base::emit(
        v,
        "id: "@ + id_or(v.node_id, "?"@) + " gen: "@ + text::dec(v.spawn.generation as nat)
            + " parent: "@ + id_or(v.spawn.parent_id, "none"@) + " children: "@ + text::dec(
            v.spawn.children.len(),
        ) + "\n"@,
    )
}

/// GENERATION ( -- n )
#[verifier::opaque]
pub open spec fn p_generation(v: VmV) -> VmV {
    base::pushed(v, v.spawn.generation as i64)
}

/// CHILD-COUNT ( -- n )
#[verifier::opaque]
pub open spec fn p_child_count(v: VmV) -> VmV {
    base::pushed(v, net::cell(v.spawn.children.len()))
}

/// KILL-CHILD ( pid -- )
#[verifier::opaque]
pub open spec fn p_kill_child(v: VmV) -> VmV {
    let (x, v) = base::popped(v);
    base::asked(v, RequestV::Kill { pid: x as u32 })
}

/// KILL-CHILD once the signal has been sent.
#[verifier::opaque]
pub open spec fn child_killed(v: VmV, pid: u32) -> VmV {
    base::emit(
        with_spawn(v, (SpawnV { children: spawn::others(v.spawn.children, pid), ..v.spawn })),
        "sent SIGTERM to pid "@ + text::dec(pid as nat) + "\n"@,
    )
}

/// ACCEPT-REPLICATE, DENY-REPLICATE ( -- )
#[verifier::opaque]
pub open spec fn p_accept_replicate(v: VmV, on: bool) -> VmV {
    base::emit(
        with_spawn(v, (SpawnV { accept_replicate: on, ..v.spawn })),
        if on {
            "accept-replicate: ON\n"@
        } else {
            "accept-replicate: OFF\n"@
        },
    )
}

/// QUARANTINE ( -- )
#[verifier::opaque]
pub open spec fn p_quarantine(v: VmV) -> VmV {
    base::emit(
        with_spawn(v, (SpawnV { quarantine: !v.spawn.quarantine, ..v.spawn })),
        if v.spawn.quarantine {
            "quarantine: OFF\n"@
        } else {
            "quarantine: ON\n"@
        },
    )
}

/// MAX-CHILDREN ( n -- )
#[verifier::opaque]
pub open spec fn p_max_children(v: VmV) -> VmV {
    let (x, v) = base::popped(v);
    let n = x as usize;
    base::emit(
        with_spawn(v, (SpawnV { max_children: n, ..v.spawn })),
        "max-children: "@ + text::dec(n as nat) + "\n"@,
    )
}

fn format_child(pid: u32, id: &NodeId) -> (s: String)
    ensures
        s@ == child_text(pid, id@),
{
    let mut s = text("spawned child pid=");
    push_u64(&mut s, pid as u64);
    s.append(" id=");
    let h = id_to_hex(id);
    s.append(h.as_str());
    s.append("\n");
    s
}

fn format_children(children: &[ChildInfo], now: u64) -> (out: String)
    ensures
        out@ == child_lines(spawn::child_views(children@), now),
{
    let mut out = String::new();
    let ghost all = spawn::child_views(children@);
    let mut i: usize = 0;
    assert(out@ =~= child_lines(all.take(0), now));
    while i < children.len()
        invariant
            i <= children@.len(),
            all == spawn::child_views(children@),
            out@ == child_lines(all.take(i as int), now),
        decreases children@.len() - i,
    {
        assert(all.take(i + 1).drop_last() =~= all.take(i as int));
        assert(all[i as int] == children@[i as int]@);
        let mut s = text("  pid=");
        push_u64(&mut s, children[i].pid as u64);
        s.append(" id=");
        let h = id_to_hex(&children[i].node_id);
        s.append(h.as_str());
        s.append(" age=");
        push_u64(&mut s, seconds_since(children[i].spawned_at, now));
        s.append("s\n");
        out.append(s.as_str());
        i = i + 1;
    }
    assert(all.take(i as int) =~= all);
    out
}

pub(crate) fn hex_or(id: &Option<NodeId>, otherwise: &str) -> (s: String)
    ensures
        s@ == id_or(crate::goals::opt_id(*id), otherwise@),
{
    match id {
        Some(x) => id_to_hex(x),
        None => text(otherwise),
    }
}

impl VM {
    pub(crate) fn resume_spawn(&mut self, r: &Reply, t: Time)
        ensures
            final(self)@ == child_started(old(self)@, r@, t),
    {
        reveal(child_started);
        match r {
            Reply::Child { pid, port, id } => {
                let mut s = self.take_spawn();
                s.add_child(
                    ChildInfo { pid: *pid, port: *port, node_id: *id, spawned_at: t.now },
                );
                s.last_spawn = Some(t.now);
                self.put_spawn(s);
                let m = format_child(*pid, id);
                self.emit_str(m.as_str());
            },
            _ => {
                let e = host::fault_text(r);
                self.say_fault("SPAWN: ", e.as_str());
            },
        }
    }

    pub(crate) fn resume_adopt(&mut self, r: &Reply, t: Time)
        ensures
            final(self)@ == child_adopted(old(self)@, r@, t),
    {
        reveal(child_adopted);
        match r {
            Reply::Child { pid, port, id } => {
                let mut s = self.take_spawn();
                s.add_child(ChildInfo { pid: *pid, port: 0, node_id: *id, spawned_at: t.now });
                self.put_spawn(s);
                let m = format_child(*pid, id);
                let mut out = text("[repl] ");
                out.append(m.as_str());
                self.print_str(out.as_str());
            },
            _ => {
                let e = host::fault_text(r);
                let mut s = text("[repl] spawn failed: ");
                s.append(e.as_str());
                s.append("\n");
                self.complain(s.as_str());
            },
        }
    }

    pub(crate) fn check_incoming_replications(&mut self)
        ensures
            final(self)@ == incoming_checked(old(self)@),
    {
        reveal(incoming_checked);
        if self.spawn_state.quarantine || !self.spawn_state.accept_replicate
            || self.mesh.is_none() {
            return ;
        }
        self.ask(Request::Incoming);
    }

    pub(crate) fn resume_incoming(&mut self, r: Reply)
        ensures
            final(self)@ == package_arrived(old(self)@, r@),
    {
        reveal(package_arrived);
        if let Reply::Bytes(p) = r {
            self.want_child(p, true);
        }
    }

    pub(crate) fn step_spawn_many(&mut self, next: usize, count: usize, t: Time)
        ensures
            final(self)@ == next_spawned(old(self)@, next, count, t),
    {
        reveal(next_spawned);
        if next < count {
            self.enter(Frame::SpawnMany { next: next + 1, count });
            if next > 0 {
                let mut s = self.take_spawn();
                s.last_spawn = None;
                self.put_spawn(s);
            }
            self.prim_spawn(t);
        }
    }

    pub(crate) fn prim_spawn_n(&mut self)
        ensures
            final(self)@ == p_spawn_n(old(self)@),
    {
        reveal(p_spawn_n);
        let n = self.pop();
        self.enter(Frame::SpawnMany { next: 0, count: n as usize });
    }

    pub(crate) fn prim_children(&mut self, t: Time)
        ensures
            final(self)@ == p_children(old(self)@, t),
    {
        reveal(p_children);
        if self.spawn_state.children.len() == 0 {
            self.emit_str("  (no children)\n");
        } else {
            let s = format_children(&self.spawn_state.children, t.now);
            self.emit_str(s.as_str());
        }
    }

    pub(crate) fn prim_family(&mut self)
        ensures
            final(self)@ == p_family(old(self)@),
    {
        reveal(p_family);
        let mut s = text("id: ");
        let me = hex_or(&self.node_id_cache, "?");
        s.append(me.as_str());
        s.append(" gen: ");
        push_u64(&mut s, self.spawn_state.generation as u64);
        s.append(" parent: ");
        let parent = hex_or(&self.spawn_state.parent_id, "none");
        s.append(parent.as_str());
        s.append(" children: ");
        push_usize(&mut s, self.spawn_state.children.len());
        s.append("\n");
        self.emit_str(s.as_str());
    }

    pub(crate) fn prim_generation(&mut self)
        ensures
            final(self)@ == p_generation(old(self)@),
    {
        reveal(p_generation);
        let g = self.spawn_state.generation;
        self.push(g as Cell);
    }

    pub(crate) fn prim_child_count(&mut self)
        ensures
            final(self)@ == p_child_count(old(self)@),
    {
        reveal(p_child_count);
        let n = self.spawn_state.children.len();
        self.push(n as Cell);
    }

    pub(crate) fn prim_kill_child(&mut self)
        ensures
            final(self)@ == p_kill_child(old(self)@),
    {
        reveal(p_kill_child);
        let pid: u32 = self.pop() as u32;
        self.ask(Request::Kill { pid });
    }

    pub(crate) fn resume_kill(&mut self, pid: u32)
        ensures
            final(self)@ == child_killed(old(self)@, pid),
    {
        reveal(child_killed);
        let mut s = self.take_spawn();
        s.forget_child(pid);
        self.put_spawn(s);
        self.say_number("sent SIGTERM to pid ", pid as u64, "\n");
    }

    pub(crate) fn prim_accept_replicate(&mut self, on: bool)
        ensures
            final(self)@ == p_accept_replicate(old(self)@, on),
    {
        reveal(p_accept_replicate);
        let mut s = self.take_spawn();
        s.accept_replicate = on;
        self.put_spawn(s);
        if on {
            self.emit_str("accept-replicate: ON\n");
        } else {
            self.emit_str("accept-replicate: OFF\n");
        }
    }

    pub(crate) fn prim_quarantine(&mut self)
        ensures
            final(self)@ == p_quarantine(old(self)@),
    {
        reveal(p_quarantine);
        let on = !self.spawn_state.quarantine;
        let mut s = self.take_spawn();
        s.quarantine = on;
        self.put_spawn(s);
        if on {
            self.emit_str("quarantine: ON\n");
        } else {
            self.emit_str("quarantine: OFF\n");
        }
    }

    pub(crate) fn prim_max_children(&mut self)
        ensures
            final(self)@ == p_max_children(old(self)@),
    {
        reveal(p_max_children);
        let n = self.pop() as usize;
        let mut s = self.take_spawn();
        s.max_children = n;
        self.put_spawn(s);
        self.say_number("max-children: ", n as u64, "\n");
    }
}

/// A unit in quarantine spawns no child, and neither does one whose family is complete.
pub proof fn law_spawn_limited(v: VmV, t: Time)
    requires
        v.spawn.quarantine || v.spawn.children.len() >= v.spawn.max_children,
    ensures
        p_spawn(v, t).pending == v.pending,
        p_spawn(v, t).spawn == v.spawn,
{
    reveal(p_spawn);
    reveal(base::emit);
}

} // verus!
