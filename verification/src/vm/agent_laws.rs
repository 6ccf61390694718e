//! What the agent does with its host, its children and its own words: input and output, replication,
//! mutation and evolution.

use crate::features::fitness;
use crate::goals::ResultV;
use crate::mesh::conduct;
use crate::mesh::message;
use crate::mesh::node::{MeshV, PacketV, TrustLevel};
use crate::order;
use crate::spawn;
use crate::spawn::{ChildV, SpawnV};
use crate::text;
use crate::types::{WordV, PAD};
use crate::vm::base;
use crate::vm::bridge;
use crate::vm::evolve;
use crate::vm::family;
use crate::vm::goal_words;
use crate::vm::host;
use crate::vm::keep;
use crate::vm::machine;
use crate::vm::net;
use crate::vm::net::Switch;
use crate::vm::ops;
use crate::vm::sandbox;
use crate::vm::state::{FrameV, RecordV, ReplyV, RequestV, ScoredV, Time, VmV};
use crate::vm::ticks;
use crate::vm::trials;
use crate::vm::word_laws::on;
use vstd::prelude::*;

verus! {

// ---------------------------------------------------------------------------
// Input and output
// ---------------------------------------------------------------------------

/// What each word for input and output asks of the host. In the sandbox nothing is asked that
/// writes, deletes, posts or runs a command; outside of it a command is run only if that is enabled.
pub proof fn law_io_requests(v: VmV, s: Seq<char>)
    ensures
        host::io_done(v, 0, s).pending == Some(RequestV::FileRead { path: s }),
        host::io_done(v, 2, s).pending == Some(RequestV::FileExists { path: s }),
        host::io_done(v, 3, s).pending == Some(RequestV::FileList { path: s }),
        host::io_done(v, 5, s).pending == Some(RequestV::HttpGet { url: s }),
        host::io_done(v, 8, s).pending == Some(RequestV::Env { name: s }),
        v.sandbox ==> host::io_done(v, 1, s).pending == v.pending,
        v.sandbox ==> host::io_done(v, 4, s).pending == v.pending,
        v.sandbox ==> host::io_done(v, 6, s).pending == v.pending,
        v.sandbox || !v.shell ==> host::io_done(v, 7, s).pending == v.pending,
        !v.sandbox ==> host::io_done(v, 4, s).pending == Some(RequestV::FileDelete { path: s }),
        !v.sandbox && v.shell ==> host::io_done(v, 7, s).pending == Some(
            RequestV::Shell { command: s },
        ),
{
    reveal(host::io_done);
    reveal(host::io_write);
    reveal(host::io_delete);
    reveal(host::io_post);
    reveal(host::io_shell);
    reveal(host::io_noted);
    reveal(host::pushed3);
    reveal(base::asked);
    reveal(base::complained);
    reveal(base::pushed);
}

/// The cells from an address on, as bytes, as far as memory goes.
pub proof fn law_bytes_of_memory(memory: Seq<i64>, addr: usize, n: int)
    requires
        0 <= n,
        addr + n <= memory.len(),
        memory.len() <= usize::MAX,
    ensures
        net::bytes_at(memory, addr, n).len() == n,
        forall|i: int|
            0 <= i < n && 0 <= memory[addr + i] <= 255 ==> #[trigger] net::bytes_at(
                memory,
                addr,
                n,
            )[i] == memory[addr + i],
    decreases n,
{
    if n > 0 {
        law_bytes_of_memory(memory, addr, n - 1);
    }
}

/// FILE-WRITE and HTTP-POST ( addr n -- ... ) hand over the `n` bytes from the address on.
pub proof fn law_data_is_handed_over(v: VmV, s: Seq<i64>, addr: i64, n: i64, name: Seq<char>)
    requires
        !v.sandbox,
        0 <= addr,
        0 <= n,
        addr + n <= v.memory.len(),
        v.memory.len() <= usize::MAX,
    ensures
        ({
            let w = host::io_done(on(v, s.push(addr).push(n)), 1, name);
            let p = host::io_done(on(v, s.push(addr).push(n)), 6, name);
            &&& w.stack == s && p.stack == s
            &&& w.pending matches Some(RequestV::FileWrite { path, data }) && path == name
                && data.len() == n && forall|i: int|
                0 <= i < n && 0 <= v.memory[addr + i] <= 255 ==> #[trigger] data[i]
                    == v.memory[addr + i]
            &&& p.pending matches Some(RequestV::HttpPost { url, body }) && url == name
                && body.len() == n && forall|i: int|
                0 <= i < n && 0 <= v.memory[addr + i] <= 255 ==> #[trigger] body[i]
                    == v.memory[addr + i]
        }),
{
    reveal(host::io_done);
    reveal(host::io_write);
    reveal(host::io_post);
    reveal(host::io_noted);
    reveal(base::asked);
    reveal(base::popped);
    assert(s.push(addr).push(n).drop_last() =~= s.push(addr));
    assert(s.push(addr).drop_last() =~= s);
    law_bytes_of_memory(v.memory, addr as usize, n as int);
}

/// Bytes that come from outside are put into the scratch area, one per cell, as far as it goes; its
/// address and their number are pushed, and nothing else of memory changes.
pub proof fn law_bytes_come_in(v: VmV, data: Seq<u8>)
    requires
        v.memory.len() >= PAD,
        v.memory.len() <= usize::MAX,
        v.memory.len() <= i64::MAX,
    ensures
        ({
            let w = net::padded(v, data);
            let n = if data.len() <= v.memory.len() - PAD {
                data.len() as int
            } else {
                v.memory.len() - PAD
            };
            &&& w.stack == v.stack.push(PAD as i64).push(n as i64)
            &&& w.memory.len() == v.memory.len()
            &&& forall|i: int| 0 <= i < n ==> #[trigger] w.memory[PAD + i] == data[i]
            &&& forall|i: int|
                0 <= i < v.memory.len() && !(PAD <= i < PAD + n) ==> #[trigger] w.memory[i]
                    == v.memory[i]
        }),
{
    reveal(net::padded);
    reveal(base::pushed);
}

/// What the host answers comes on the stack: a key as its number and -1 at the end of input, whether
/// a file is there or was deleted as -1 or 0, a response as its bytes with its status on top.
pub proof fn law_io_answers(v: VmV, path: Seq<char>, b: u8, flag: bool, body: Seq<u8>, code: i64)
    requires
        v.memory.len() >= PAD,
    ensures
        host::io_replied(v, RequestV::Key, ReplyV::Byte(b)).stack == v.stack.push(b as i64),
        host::io_replied(v, RequestV::Key, ReplyV::Done).stack == v.stack.push(-1i64),
        host::io_replied(v, RequestV::FileExists { path }, ReplyV::Flag(flag)).stack
            == v.stack.push(if flag {
            -1i64
        } else {
            0i64
        }),
        host::io_replied(v, RequestV::FileDelete { path }, ReplyV::Done).stack == v.stack.push(
            -1i64,
        ),
        host::io_replied(v, RequestV::FileDelete { path }, ReplyV::Fault(path)).stack
            == v.stack.push(0i64),
        host::io_replied(
            v,
            RequestV::HttpGet { url: path },
            ReplyV::Response { body, code },
        ).stack == net::padded(v, body).stack.push(code),
        host::io_replied(v, RequestV::FileRead { path }, ReplyV::Bytes(body)) == net::padded(
            v,
            body,
        ),
        host::io_replied(v, RequestV::FileRead { path }, ReplyV::Fault(path)).stack == v.stack.push(
            0i64,
        ).push(0i64),
        host::io_replied(v, RequestV::HttpGet { url: path }, ReplyV::Fault(path)).stack
            == v.stack.push(0i64).push(0i64).push(0i64),
        host::io_replied(v, RequestV::Shell { command: path }, ReplyV::Fault(path)).stack
            == v.stack.push(0i64).push(0i64).push(-1i64),
{
    reveal(host::io_replied);
    reveal(host::answered_with);
    reveal(host::io_failed);
    reveal(host::pushed3);
    reveal(base::pushed);
    reveal(base::complained);
}

/// A directory is listed in the order of its names.
pub proof fn law_files_are_listed_in_order(v: VmV, path: Seq<char>, names: Seq<Seq<char>>)
    requires
        v.output.is_none(),
    ensures
        ({
            let w = host::io_replied(v, RequestV::FileList { path }, ReplyV::Names(names));
            exists|s: Seq<Seq<char>>|
                w.console == v.console.push((false, #[trigger] host::io_lines(s)))
                    && order::in_order(s) && s.to_multiset() == names.to_multiset()
        }),
{
    reveal(host::io_replied);
    reveal(base::emit);
    order::law_sorted(names);
    assert(host::io_lines(order::sorted(names)) == host::io_lines(order::sorted(names)));
}

/// The switches of the machine: turned on or off by name, or over.
pub proof fn law_switches(v: VmV)
    ensures
        host::p_sandbox(v, true).sandbox,
        !host::p_sandbox(v, false).sandbox,
        host::p_shell_enable(v).shell == !v.shell,
        goal_words::p_auto_claim(v).auto_claim == !v.auto_claim,
        keep::p_auto_save(v).auto_save == !v.auto_save,
        evolve::p_auto_evolve(v).fitness.auto_evolve == !v.fitness.auto_evolve,
        family::p_quarantine(v).spawn.quarantine == !v.spawn.quarantine,
        family::p_accept_replicate(v, true).spawn.accept_replicate,
        !family::p_accept_replicate(v, false).spawn.accept_replicate,
{
    reveal(host::p_sandbox);
    reveal(host::p_shell_enable);
    reveal(goal_words::p_auto_claim);
    reveal(keep::p_auto_save);
    reveal(keep::with_auto_save);
    reveal(evolve::p_auto_evolve);
    reveal(evolve::with_fitness);
    reveal(family::p_quarantine);
    reveal(family::p_accept_replicate);
    reveal(family::with_spawn);
    reveal(base::emit);
    reveal(base::printed);
}

/// SLEEP asks for a pause of so many milliseconds, if they are positive; TIMESTAMP gives the seconds
/// since the epoch.
pub proof fn law_time_words(v: VmV, s: Seq<i64>, ms: i64, t: Time)
    ensures
        ms > 0 ==> host::p_sleep(on(v, s.push(ms))).pending == Some(
            RequestV::Sleep { millis: ms as u64 },
        ),
        ms <= 0 ==> host::p_sleep(on(v, s.push(ms))) == on(v, s),
        t.epoch < 0x7FFF_FFFF_FFFF_FFFF ==> host::p_timestamp(v, t).stack == v.stack.push(
            (t.epoch / 1000) as i64,
        ),
{
    reveal(host::p_sleep);
    reveal(host::p_timestamp);
    reveal(base::popped);
    reveal(base::pushed);
    reveal(base::asked);
    assert(s.push(ms).drop_last() =~= s);
}

// ---------------------------------------------------------------------------
// The mesh from the machine
// ---------------------------------------------------------------------------

/// SEND ( addr n peer -- ) sends the bytes to every peer; RECV gives the oldest message that came in
/// and takes it away, with -1 on top, and three zeros if there is none.
pub proof fn law_send_and_receive(v: VmV, s: Seq<i64>, m: MeshV, addr: i64, n: i64, peer: i64)
    requires
        v.mesh == Some(m),
        n >= 0,
    ensures
        ({
            let w = net::p_send(on(v, s.push(addr).push(n).push(peer)));
            &&& w.stack == s && w.mesh.is_some()
            &&& w.mesh->0.outbox.len() == m.outbox.len() + m.peers.len()
            &&& forall|i: int|
                0 <= i < m.peers.len() ==> #[trigger] w.mesh->0.outbox[m.outbox.len() + i] == (
                PacketV {
                    to: m.peers[i].addr,
                    bytes: message::data_bytes(
                        m.id,
                        m.port,
                        net::bytes_at(v.memory, addr as usize, n as usize as int),
                    ),
                })
        }),
        m.inbox.len() == 0 ==> net::p_recv(v).stack == v.stack.push(0i64).push(0i64).push(0i64)
            && net::p_recv(v).mesh == v.mesh,
        m.inbox.len() > 0 ==> ({
            let w = net::p_recv(v);
            &&& w.mesh.is_some() && m.inbox == seq![m.inbox[0]] + w.mesh->0.inbox
            &&& w.stack == net::padded(v, m.inbox[0].data).stack.push(-1i64)
        }),
{
    reveal(net::p_send);
    reveal(net::p_recv);
    reveal(net::with_mesh);
    reveal(net::padded);
    reveal(base::popped);
    reveal(base::pushed);
    reveal(base::crash);
    assert(s.push(addr).push(n).push(peer).drop_last() =~= s.push(addr).push(n));
    assert(s.push(addr).push(n).drop_last() =~= s.push(addr));
    assert(s.push(addr).drop_last() =~= s);
    if m.inbox.len() > 0 {
        assert(m.inbox =~= seq![m.inbox[0]] + m.inbox.skip(1));
    }
}

/// Each switch of the swarm turns itself over and leaves the others.
pub proof fn law_swarm_switches(v: VmV, m: MeshV)
    requires
        v.mesh == Some(m),
    ensures
        net::p_switch(v, Switch::Discover).mesh == Some(
            MeshV { auto_discover: !m.auto_discover, ..m },
        ),
        net::p_switch(v, Switch::Share).mesh == Some(MeshV { auto_share: !m.auto_share, ..m }),
        net::p_switch(v, Switch::Spawn).mesh == Some(MeshV { auto_spawn: !m.auto_spawn, ..m }),
        net::p_switch(v, Switch::Cull).mesh == Some(MeshV { auto_cull: !m.auto_cull, ..m }),
{
    reveal(net::p_switch);
    reveal(net::with_mesh);
    reveal(base::emit);
}

/// The limits of the swarm are at least one.
pub proof fn law_swarm_limits(v: VmV, s: Seq<i64>, m: MeshV, n: i64)
    requires
        v.mesh == Some(m),
        0 <= n <= 0x7FFF_FFFF,
    ensures
        ({
            let limit = if n == 0 {
                1
            } else {
                n as int
            };
            &&& net::p_min_units(on(v, s.push(n))).mesh == Some(
                MeshV { min_units: limit as usize, ..m },
            )
            &&& net::p_max_units(on(v, s.push(n))).mesh == Some(
                MeshV { max_units: limit as usize, ..m },
            )
        }),
{
    reveal(net::p_min_units);
    reveal(net::p_max_units);
    reveal(net::with_mesh);
    reveal(base::popped);
    reveal(base::emit);
    assert(s.push(n).drop_last() =~= s);
}

/// The average of a mesh is that of the scores of all units, this one with them, rounded towards
/// zero.
pub proof fn law_mesh_average(m: MeshV, own: i64)
    requires
        conduct::scores_moderate(m.peers),
        i64::MIN <= conduct::score_sum(m.peers) + own <= i64::MAX,
    ensures
        ({
            let total = conduct::score_sum(m.peers) + own;
            let n = (m.peers.len() + 1) as int;
            net::mesh_average(m, own) == (if total >= 0 {
                total / n
            } else {
                -((-total) / n)
            })
        }),
{
    let total = conduct::score_sum(m.peers) + own;
    let n = (m.peers.len() + 1) as int;
    conduct::lemma_score_sum(m.peers);
    if m.peers.len() == 0 {
        assert(conduct::score_sum(m.peers) == 0);
    }
    let a = if total >= 0 {
        total
    } else {
        -total
    };
    assert(0 <= a / n <= a) by (nonlinear_arith)
        requires
            a >= 0,
            n >= 1,
    ;
}

/// SHARE" name" sends a word that is known to every peer, and nothing if it is not known.
pub proof fn law_share_word(v: VmV, rest: VmV, m: MeshV, name: Seq<char>)
    requires
        base::parsed(v, '"') == (name, rest),
        rest.mesh == Some(m),
    ensures
        ({
            let w = net::p_share(v);
            if base::found(rest, text::upper(name)).is_some() {
                &&& w.mesh.is_some()
                &&& w.mesh->0.outbox.len() == m.outbox.len() + m.peers.len()
                &&& forall|i: int|
                    0 <= i < m.peers.len() ==> #[trigger] w.mesh->0.outbox[m.outbox.len() + i] == (
                    PacketV {
                        to: m.peers[i].addr,
                        bytes: message::word_bytes(
                            m.id,
                            m.port,
                            text::upper(name),
                            ": "@ + text::upper(name) + " ;"@,
                        ),
                    })
            } else {
                w.mesh == Some(m)
            }
        }),
{
    reveal(net::p_share);
    reveal(net::shared);
    reveal(net::with_mesh);
    reveal(base::emit);
}

/// Words that came in from peers are compiled, each once, in the order in which they came; none is
/// left waiting.
pub proof fn law_received_words_are_compiled(v: VmV, m: MeshV)
    requires
        v.mesh == Some(m),
    ensures
        ({
            let w = ticks::words_received(v);
            &&& w.mesh == Some(MeshV { word_inbox: Seq::empty(), ..m })
            &&& w.frames.len() == v.frames.len() + 1
            &&& w.frames.last() matches FrameV::Jobs { jobs, next, heal } && next == 0 && !heal
                && jobs.len() == m.word_inbox.len() && forall|i: int|
                0 <= i < jobs.len() ==> (#[trigger] jobs[i]).1 == m.word_inbox[i].source
        }),
{
    reveal(ticks::words_received);
    reveal(net::with_mesh);
    reveal(base::framed);
}

/// The answers to requests for replication: the oldest is accepted or denied, or all are denied.
pub proof fn law_consent_words(v: VmV, m: MeshV, t: Time)
    requires
        v.mesh == Some(m),
        m.requests.len() > 0,
    ensures
        ({
            let a = net::p_accept(v, t).mesh->0;
            let d = net::p_deny(v, t).mesh->0;
            let all = net::p_deny_all(v, t).mesh->0;
            &&& m.requests == seq![m.requests[0]] + a.requests
            &&& m.requests == seq![m.requests[0]] + d.requests
            &&& a.log.last().result == "accepted"@ && d.log.last().result == "denied"@
            &&& a.log.last().peer == m.requests[0].sender
            &&& d.log.last().peer == m.requests[0].sender
            &&& a.outbox == m.outbox && d.outbox == m.outbox
            &&& all.requests.len() == 0 && all.log.len() == m.log.len() + m.requests.len()
        }),
{
    reveal(net::p_accept);
    reveal(net::p_deny);
    reveal(net::p_deny_all);
    reveal(net::with_mesh);
    reveal(base::emit);
    conduct::law_oldest_request_first(m, "accepted"@, t.epoch / 1000);
    conduct::law_oldest_request_first(m, "denied"@, t.epoch / 1000);
}

/// The level of trust is set by its word and shown by its number.
pub proof fn law_trust_words(v: VmV, m: MeshV, l: TrustLevel)
    requires
        v.mesh == Some(m),
    ensures
        net::p_set_trust(v, l).mesh == Some(MeshV { trust: l, ..m }),
        net::p_trust_level(net::p_set_trust(v, l)).stack == v.stack.push(
            match l {
                TrustLevel::All => 0i64,
                TrustLevel::Mesh => 1i64,
                TrustLevel::Family => 2i64,
                TrustLevel::Nobody => 3i64,
            },
        ),
{
    reveal(net::p_set_trust);
    reveal(net::p_trust_level);
    reveal(net::with_mesh);
    reveal(base::emit);
    reveal(base::pushed);
}

// ---------------------------------------------------------------------------
// Children
// ---------------------------------------------------------------------------

/// A unit may start a child exactly if it is not in quarantine, has fewer children than it may have,
/// and the pause since the last start, in seconds, is over.
pub proof fn law_when_to_spawn(s: SpawnV, now: u64)
    ensures
        spawn::spawn_refusal(s, now).is_none() <==> !s.quarantine && s.children.len()
            < s.max_children && (s.last_spawn matches Some(last) ==> s.spawn_cooldown_secs == 0
            || now >= last + 1000 * s.spawn_cooldown_secs),
        spawn::lone().max_children == 10 && spawn::lone().spawn_cooldown_secs == 30,
        !spawn::lone().quarantine && spawn::lone().accept_replicate,
        spawn::lone().children.len() == 0 && spawn::lone().generation == 0,
{
}

/// A package that is wanted for a child carries the next generation and the port to report to.
pub proof fn law_child_is_the_next_generation(v: VmV, package: Seq<u8>, arrived: bool)
    requires
        v.spawn.generation < u32::MAX,
    ensures
        family::child_wanted(v, package, arrived).pending matches Some(
            RequestV::SpawnPackage { package: p, port, generation, arrived: a },
        ) && p == package && generation == v.spawn.generation + 1 && a == arrived && port == (
        match v.mesh {
            Some(m) => m.port,
            None => 0,
        }),
{
    reveal(family::child_wanted);
    reveal(base::asked);
}

/// A child that was started joins the others, and the pause begins.
pub proof fn law_child_is_recorded(v: VmV, pid: u32, port: u16, id: Seq<u8>, t: Time)
    ensures
        ({
            let w = family::child_started(v, ReplyV::Child { pid, port, id }, t);
            let c = w.spawn.children.last();
            &&& w.spawn.children == v.spawn.children.push(c)
            &&& c.pid == pid && c.node_id == id && c.spawned_at == t.now
            &&& w.spawn.last_spawn == Some(t.now)
        }),
        ({
            let w = family::child_adopted(v, ReplyV::Child { pid, port, id }, t);
            let c = w.spawn.children.last();
            &&& w.spawn.children == v.spawn.children.push(c)
            &&& c.pid == pid && c.node_id == id
            &&& w.spawn.last_spawn == v.spawn.last_spawn
        }),
{
    reveal(family::child_started);
    reveal(family::child_adopted);
    reveal(family::with_spawn);
    reveal(base::emit);
    reveal(base::printed);
}

proof fn lemma_other_children(s: Seq<ChildV>, pid: u32, c: ChildV)
    ensures
        spawn::others(s, pid).contains(c) <==> s.contains(c) && c.pid != pid,
    decreases s.len(),
{
    if s.len() > 0 {
        let d = s.drop_last();
        let r = spawn::others(d, pid);
        let w = spawn::others(s, pid);
        lemma_other_children(d, pid, c);
        assert(s[s.len() - 1] == s.last());
        if d.contains(c) {
            let i = choose|i: int| 0 <= i < d.len() && d[i] == c;
            assert(s[i] == c);
        }
        if s.contains(c) && s.last() != c {
            let i = choose|i: int| 0 <= i < s.len() && s[i] == c;
            assert(d[i] == c);
        }
        if r.contains(c) {
            let i = choose|i: int| 0 <= i < r.len() && r[i] == c;
            assert(w[i] == c);
        }
        if w.len() > r.len() {
            assert(w[r.len() as int] == s.last());
        }
        if w.contains(c) && !r.contains(c) {
            let i = choose|i: int| 0 <= i < w.len() && w[i] == c;
            if i < r.len() {
                assert(r[i] == c);
            }
        }
    }
}

/// A child that is ended is no longer among the children, and the others stay.
pub proof fn law_killed_child_is_gone(v: VmV, pid: u32, c: ChildV)
    ensures
        family::child_killed(v, pid).spawn.children.contains(c) <==> v.spawn.children.contains(c)
            && c.pid != pid,
{
    reveal(family::child_killed);
    reveal(family::with_spawn);
    reveal(base::emit);
    lemma_other_children(v.spawn.children, pid, c);
}

/// Packages from outside are taken in exactly if the unit is on a mesh, accepts them and is not in
/// quarantine.
pub proof fn law_when_packages_come_in(v: VmV)
    ensures
        v.mesh.is_some() && v.spawn.accept_replicate && !v.spawn.quarantine
            ==> family::incoming_checked(v).pending == Some(RequestV::Incoming),
        v.mesh.is_none() || !v.spawn.accept_replicate || v.spawn.quarantine
            ==> family::incoming_checked(v) == v,
{
    reveal(family::incoming_checked);
    reveal(base::asked);
}

/// The package of a unit holds its program, its state and its prelude, and is 29 bytes longer than
/// these.
pub proof fn law_package_holds_all(binary: Seq<u8>, state: Seq<u8>, prelude: Seq<u8>)
    ensures
        spawn::package(binary, state, prelude).len() == 29 + binary.len() + state.len()
            + prelude.len(),
{
    crate::wire::lemma_be(binary.len(), 8);
    crate::wire::lemma_be(state.len(), 8);
    crate::wire::lemma_be(prelude.len(), 8);
}

// ---------------------------------------------------------------------------
// Mutation and evolution
// ---------------------------------------------------------------------------

/// The score of a benchmark: ten points for each number that it leaves, less one for each tenth of a
/// second, fifty at most. One that does not run to its end has -100.
pub proof fn law_benchmark_score(r: ResultV, elapsed: u64)
    requires
        r.stack.len() <= 0xFFFF_FFFF,
    ensures
        !r.success ==> trials::score_of(r, elapsed) == -100,
        r.success && elapsed < 5000 ==> trials::score_of(r, elapsed) == 10 * r.stack.len() - elapsed
            / 100,
        r.success && elapsed >= 5000 ==> trials::score_of(r, elapsed) == 10 * r.stack.len() - 50,
{
}

/// A change of a word that behaves as before is neutral; of the others one whose benchmark has at
/// least nothing is beneficial, and one whose benchmark is below is harmful. A harmful change is
/// undone, every other one is kept and remembered. What became of it is told by -1 or 0.
pub proof fn law_changes_are_judged(v: VmV, rec: RecordV, score: i64)
    requires
        rec.index < v.dict.len(),
    ensures
        ({
            let w = trials::scored(v, score, ScoredV::Judge { record: rec });
            &&& score >= 0 ==> w.dict == v.dict && w.history == v.history.push(rec) && w.stack
                == v.stack.push(-1i64)
            &&& score < 0 ==> w.history == v.history && w.stack == v.stack.push(0i64)
                && w.dict[rec.index as int].body == rec.old_body
            &&& score >= 0 && v.stats.beneficial < u32::MAX ==> w.stats.beneficial
                == v.stats.beneficial + 1 && w.stats.harmful == v.stats.harmful
            &&& score < 0 && v.stats.harmful < u32::MAX ==> w.stats.harmful == v.stats.harmful + 1
                && w.stats.beneficial == v.stats.beneficial
            &&& w.stats.neutral == v.stats.neutral
            &&& w.last_mutation matches Some(o) && o.kept == (score >= 0)
        }),
{
    reveal(trials::scored);
    reveal(trials::judged);
    reveal(trials::noted);
    reveal(evolve::undone);
    reveal(evolve::with_body);
    reveal(evolve::remembered);
    reveal(base::pushed);
}

/// A change after which the word behaves as before is kept as neutral, without a benchmark.
pub proof fn law_same_behaviour_is_neutral(
    v: VmV,
    index: usize,
    seen: Seq<char>,
    rec: RecordV,
    t: Time,
)
    requires
        v.stats.neutral < u32::MAX,
    ensures
        ({
            let w = trials::behaviour_seen(
                v,
                index,
                seen,
                Some(crate::vm::state::ChangeV { record: rec, before: seen }),
                t,
            );
            &&& w.dict == v.dict && w.history == v.history.push(rec)
            &&& w.stack == v.stack.push(-1i64)
            &&& w.stats.neutral == v.stats.neutral + 1 && w.stats.harmful == v.stats.harmful
            &&& w.stats.beneficial == v.stats.beneficial
        }),
{
    reveal(trials::behaviour_seen);
    reveal(trials::judged);
    reveal(trials::noted);
    reveal(evolve::remembered);
    reveal(base::pushed);
}

/// Behaviour is what a word prints and leaves on three stacks: an empty one, one with 1, and one
/// with 1, 2 and 3. Each trial may take a tenth of a second.
pub proof fn law_trials(v: VmV, round: int, t: Time)
    requires
        0 <= round < 3,
        t.now <= u64::MAX - 100,
    ensures
        ({
            let w = trials::trying(v, round, t);
            &&& w.deadline == Some((t.now + 100) as u64) && w.output == Some(Seq::<char>::empty())
            &&& round == 0 ==> w.stack.len() == 0
            &&& round == 1 ==> w.stack == seq![1i64]
            &&& round == 2 ==> w.stack == seq![1i64, 2i64, 3i64]
            &&& w.dict == v.dict
        }),
{
    reveal(trials::trying);
}

/// An evolution keeps a change exactly if the benchmark is not worse than before, else the word gets
/// its body back; it counts either way.
pub proof fn law_evolution_selects(v: VmV, average: i64, before: i64, after: i64, rec: RecordV)
    requires
        rec.index < v.dict.len(),
        v.fitness.evolution_count < u32::MAX,
    ensures
        ({
            let w = trials::selected(v, average, before, after, rec);
            &&& after >= before ==> w.dict == v.dict && w.history == v.history.push(rec)
            &&& after < before ==> w.dict == v.dict.update(
                rec.index as int,
                WordV { body: rec.old_body, ..v.dict[rec.index as int] },
            ) && w.history == v.history
            &&& w.fitness.evolution_count == v.fitness.evolution_count + 1
            &&& w.fitness.tasks_since_evolve == 0 && w.fitness.score == v.fitness.score
        }),
{
    reveal(trials::selected);
    reveal(trials::evolved);
    reveal(evolve::undone);
    reveal(evolve::with_body);
    reveal(evolve::with_fitness);
    reveal(evolve::remembered);
    reveal(base::emit);
}

/// A unit evolves of its own accord exactly when it is due.
pub proof fn law_evolution_when_due(v: VmV, t: Time)
    ensures
        !(v.fitness.auto_evolve && v.fitness.tasks_since_evolve >= v.fitness.evolve_interval)
            ==> trials::evolve_checked(v, t) == v,
        v.fitness.auto_evolve && v.fitness.tasks_since_evolve >= v.fitness.evolve_interval
            ==> trials::evolve_checked(v, t) == trials::p_evolve(v, t),
{
    reveal(trials::evolve_checked);
}

/// A change gives one word another body and remembers the old one; undoing takes back the last
/// change that is remembered, and no other.
pub proof fn law_undo_takes_back_the_last(v: VmV, r: RecordV, earlier: Seq<RecordV>)
    requires
        v.history == earlier.push(r),
        r.index < v.dict.len(),
    ensures
        ({
            let w = evolve::p_undo(v);
            &&& w.history == earlier
            &&& w.dict == v.dict.update(
                r.index as int,
                WordV { body: r.old_body, ..v.dict[r.index as int] },
            )
        }),
{
    reveal(evolve::p_undo);
    reveal(evolve::undone);
    reveal(evolve::unremembered);
    reveal(evolve::with_body);
    reveal(base::emit);
    assert(earlier.push(r).drop_last() =~= earlier);
}

/// RATE ( task rating -- ) adds the rating to the score; FITNESS gives the score.
pub proof fn law_rating(v: VmV, s: Seq<i64>, task: i64, rating: i64)
    requires
        i64::MIN <= v.fitness.score + rating <= i64::MAX,
    ensures
        ({
            let w = evolve::p_rate(on(v, s.push(task).push(rating)));
            &&& w.stack == s && w.fitness.score == v.fitness.score + rating
            &&& evolve::p_fitness(w).stack == s.push((v.fitness.score + rating) as i64)
        }),
{
    reveal(evolve::p_rate);
    reveal(evolve::p_fitness);
    reveal(evolve::with_fitness);
    reveal(base::popped);
    reveal(base::pushed);
    reveal(base::emit);
    assert(s.push(task).push(rating).drop_last() =~= s.push(task));
    assert(s.push(task).drop_last() =~= s);
}

// ---------------------------------------------------------------------------
// Watching from the machine
// ---------------------------------------------------------------------------

/// WATCH words ( seconds -- id ) watch an address, a file or a process, at least every second; the
/// number of the watch is pushed.
pub proof fn law_watch_words(v: VmV, s: Seq<i64>, kind: u8, target: Seq<char>, every: i64, t: Time)
    requires
        crate::features::monitor_laws::numbered(v.monitor),
        v.monitor.next_id < u32::MAX,
        every >= 0,
        kind < 3,
    ensures
        ({
            let w = ops::watching(on(v, s.push(every)), kind, target, t);
            let x = w.monitor.watches.last();
            &&& w.stack == s.push(v.monitor.next_id as i64)
            &&& w.monitor.watches == v.monitor.watches.push(x)
            &&& x.id == v.monitor.next_id
            &&& x.interval_secs == (if every == 0 {
                1
            } else {
                every as int
            })
            &&& kind == 0 ==> x.kind == crate::features::monitor::KindV::Url(target)
            &&& kind == 1 ==> x.kind == crate::features::monitor::KindV::File(target)
            &&& kind == 2 ==> x.kind == crate::features::monitor::KindV::Process(target)
        }),
{
    reveal(ops::watching);
    reveal(ops::with_monitor);
    reveal(base::popped);
    reveal(base::pushed);
    reveal(base::emit);
    assert(s.push(every).drop_last() =~= s);
    let k = ops::kind_of(kind, target);
    let n = ops::interval(every as u64);
    crate::features::monitor_laws::law_new_watch_is_new(v.monitor, k, n, t.epoch / 1000, 0);
}

/// A goal that a browser submits is a goal with its code and its priority; nothing else that a
/// browser sends changes more than what is shown.
pub proof fn law_browser_goals(v: VmV, m: MeshV, code: Seq<char>, priority: i64, id: Seq<char>, t: Time)
    requires
        v.mesh == Some(m),
        crate::registry::numbered(m.goals),
        m.goals.counter + 2 <= u64::MAX,
    ensures
        ({
            let w = bridge::event_taken(
                v,
                crate::features::ws_bridge::EventV::GoalSubmit { code, priority },
                t,
            );
            let g = w.mesh->0.goals.goals.last();
            &&& w.mesh.is_some() && w.mesh->0.goals.goals == m.goals.goals.push(g)
            &&& g.code == Some(code) && g.priority == priority && g.id == m.goals.counter
            &&& w.stack == v.stack && w.dict == v.dict
        }),
        bridge::event_taken(v, crate::features::ws_bridge::EventV::ClientConnected { id }, t).mesh
            == v.mesh,
        bridge::event_taken(v, crate::features::ws_bridge::EventV::ClientDisconnected { id }, t).mesh
            == v.mesh,
{
    reveal(bridge::event_taken);
    reveal(net::with_mesh);
    reveal(base::printed);
    crate::goal_laws::law_goal_comes_with_a_task(
        m.goals,
        code,
        priority,
        m.id,
        Some(code),
        t.epoch,
    );
}

} // verus!
