//! The messages that units send to each other.

use crate::codec;
use crate::codec::{read_cells, read_expected, write_cells};
use crate::goals::{ResultV, TaskResult};
use crate::persist;
use crate::text;
use crate::text::push_u64;
use crate::wire;
use crate::wire::{
    write_bytes, write_id, write_len16, write_len32, write_string, write_u16, write_u64,
    write_u8, Input, NodeId, Reader,
};
use vstd::prelude::*;

verus! {

pub const MSG_HEARTBEAT: u8 = 1;

pub const MSG_PROPOSE: u8 = 2;

pub const MSG_VOTE: u8 = 3;

pub const MSG_COMMIT: u8 = 4;

pub const MSG_REJECT: u8 = 5;

pub const MSG_DATA: u8 = 6;

pub const MSG_GOAL_BROADCAST: u8 = 7;

pub const MSG_TASK_CLAIM: u8 = 8;

pub const MSG_TASK_RESULT: u8 = 9;

pub const MSG_WORD_SHARE: u8 = 10;

pub const MSG_DISCOVERY_BEACON: u8 = 11;

pub const MSG_SPAWN_INTENT: u8 = 12;

pub const MSG_CULL_INTENT: u8 = 13;

pub const MSG_REPLICATE_REQUEST: u8 = 14;

pub const MSG_REPLICATE_ACCEPT: u8 = 15;

pub const MSG_REPLICATE_DENY: u8 = 16;

/// The port on which units listen for discovery beacons.
pub const DISCOVERY_PORT: u16 = 4200;

/// The address 127.0.0.1.
pub const LOCALHOST: u32 = 0x7F00_0001;

// ---------------------------------------------------------------------------
// Addresses
// ---------------------------------------------------------------------------

/// The address of a peer. Of an address of the sixth version the text that shows its
/// IP is kept, without brackets and port.
#[derive(Debug)]
pub enum Addr {
    V4 { ip: u32, port: u16 },
    V6 { name: String, port: u16 },
}

/// The mathematical form of an address.
#[verifier::ext_equal]
pub enum AddrV {
    V4 { ip: u32, port: u16 },
    V6 { name: Seq<char>, port: u16 },
}

impl View for Addr {
    type V = AddrV;

    open spec fn view(&self) -> AddrV {
        match self {
            Addr::V4 { ip, port } => AddrV::V4 { ip: *ip, port: *port },
            Addr::V6 { name, port } => AddrV::V6 { name: name@, port: *port },
        }
    }
}

/// The port of an address.
pub open spec fn port_of(a: AddrV) -> u16 {
    match a {
        AddrV::V4 { port, .. } => port,
        AddrV::V6 { port, .. } => port,
    }
}

/// The same host with another port.
pub open spec fn at_port(a: AddrV, p: u16) -> AddrV {
    match a {
        AddrV::V4 { ip, .. } => AddrV::V4 { ip, port: p },
        AddrV::V6 { name, .. } => AddrV::V6 { name, port: p },
    }
}

/// True of the addresses 127.x.x.x.
pub open spec fn is_loopback(ip: u32) -> bool {
    ip / 0x100_0000 == 127
}

/// An address of the fourth version in the usual form.
pub open spec fn ip_text(ip: u32) -> Seq<char> {
    text::dec((ip / 0x100_0000) as nat) + text::one('.') + text::dec((ip / 0x1_0000 % 256) as nat) + text::one('.') + text::dec(
        (ip / 0x100 % 256) as nat,
    ) + text::one('.') + text::dec((ip % 256) as nat)
}

/// An address as text.
pub open spec fn addr_text(a: AddrV) -> Seq<char> {
    match a {
        AddrV::V4 { ip, port } => ip_text(ip) + text::one(':') + text::dec(port as nat),
        AddrV::V6 { name, port } => "["@ + name + "]:"@ + text::dec(port as nat),
    }
}

/// A stand-in for the identity of a peer of which only the address is known.
pub open spec fn pseudo_id(a: AddrV) -> Seq<u8> {
    wire::w16(port_of(a) as nat) + match a {
        AddrV::V4 { ip, .. } => wire::w32(ip as nat),
        AddrV::V6 { .. } => seq![0xFFu8, 0xFFu8, 0xFFu8, 0xFFu8],
    } + seq![0xFFu8, 0xFFu8]
}

impl Clone for Addr {
    fn clone(&self) -> (r: Self)
        ensures
            r@ == self@,
    {
        match self {
            Addr::V4 { ip, port } => Addr::V4 { ip: *ip, port: *port },
            Addr::V6 { name, port } => Addr::V6 { name: name.clone(), port: *port },
        }
    }
}

impl Addr {
    pub fn port(&self) -> (p: u16)
        ensures
            p == port_of(self@),
    {
        match self {
            Addr::V4 { port, .. } => *port,
            Addr::V6 { port, .. } => *port,
        }
    }

    /// The same host with another port.
    pub fn with_port(&self, p: u16) -> (r: Addr)
        ensures
            r@ == at_port(self@, p),
    {
        match self {
            Addr::V4 { ip, .. } => Addr::V4 { ip: *ip, port: p },
            Addr::V6 { name, .. } => Addr::V6 { name: name.clone(), port: p },
        }
    }

    /// Whether the address is `ip` and `port` of the fourth version.
    pub fn is_v4(&self, ip: u32, port: u16) -> (b: bool)
        ensures
            b == (self@ == AddrV::V4 { ip, port }),
    {
        match self {
            Addr::V4 { ip: i, port: p } => *i == ip && *p == port,
            Addr::V6 { .. } => false,
        }
    }

    /// The address as text.
    pub fn to_text(&self) -> (out: String)
        ensures
            out@ == addr_text(self@),
    {
        let mut out = String::new();
        match self {
            Addr::V4 { ip, port } => {
                push_u64(&mut out, (*ip / 0x100_0000) as u64);
                assert(out@ =~= text::dec((*ip / 0x100_0000) as nat));
                out.push('.');
                push_u64(&mut out, (*ip / 0x1_0000 % 256) as u64);
                out.push('.');
                push_u64(&mut out, (*ip / 0x100 % 256) as u64);
                out.push('.');
                push_u64(&mut out, (*ip % 256) as u64);
                out.push(':');
                push_u64(&mut out, *port as u64);
                assert(out@ =~= addr_text(self@));
            },
            Addr::V6 { name, port } => {
                out.append("[");
                out.append(name.as_str());
                out.append("]:");
                push_u64(&mut out, *port as u64);
                assert(out@ =~= addr_text(self@));
            },
        }
        out
    }
}

/// Derives the stand-in identity of an address: its port, its four bytes, and ones.
pub fn addr_to_pseudo_id(addr: &Addr) -> (id: NodeId)
    ensures
        id@ == pseudo_id(addr@),
{
    let mut b: Vec<u8> = Vec::new();
    write_u16(&mut b, addr.port());
    match addr {
        Addr::V4 { ip, .. } => wire::write_u32(&mut b, *ip),
        Addr::V6 { .. } => {
            let f: [u8; 4] = [0xFF, 0xFF, 0xFF, 0xFF];
            assert(f@ =~= seq![0xFFu8, 0xFFu8, 0xFFu8, 0xFFu8]);
            write_bytes(&mut b, f.as_slice());
        },
    }
    proof {
        wire::lemma_be(port_of(addr@) as nat, 2);
        if let AddrV::V4 { ip, .. } = addr@ {
            wire::lemma_be(ip as nat, 4);
        }
        assert(b@.len() == 6);
    }
    let id: NodeId = [b[0], b[1], b[2], b[3], b[4], b[5], 0xFF, 0xFF];
    assert(id@ =~= pseudo_id(addr@));
    id
}

// ---------------------------------------------------------------------------
// The header
// ---------------------------------------------------------------------------

/// The first bytes of every message.
pub open spec fn magic() -> Seq<u8> {
    seq![0x55u8, 0x4Eu8, 0x49u8, 0x54u8]
}

/// The header of a message: its kind, and the sender with its port.
pub open spec fn header(kind: u8, id: Seq<u8>, port: u16) -> Seq<u8> {
    magic() + wire::w8(kind as int) + id + wire::w16(port as nat)
}

/// Takes a header.
pub open spec fn get_header(i: Input) -> (nat, Seq<u8>, nat, Input) {
    let i = codec::expect(i, magic());
    let (kind, i) = wire::get_nat(i, 1);
    let (id, i) = wire::get_id(i);
    let (port, i) = wire::get_nat(i, 2);
    (kind, id, port, i)
}

/// Starts a message.
pub fn encode_header(buf: &mut Vec<u8>, msg_type: u8, id: &NodeId, port: u16)
    ensures
        final(buf)@ == old(buf)@ + header(msg_type, id@, port),
{
    let m: [u8; 4] = [0x55, 0x4E, 0x49, 0x54];
    assert(m@ =~= magic());
    write_bytes(buf, m.as_slice());
    write_u8(buf, msg_type);
    write_id(buf, id);
    write_u16(buf, port);
    assert(buf@ =~= old(buf)@ + header(msg_type, id@, port));
}

/// Reads a header: the kind of the message, its sender and the sender's port. The reader has
/// failed if there is none.
pub fn decode_header(r: &mut Reader) -> (h: (u8, NodeId, u16))
    requires
        old(r).wf(),
        codec::canonical(old(r)@),
    ensures
        final(r).wf(),
        codec::canonical(final(r)@),
        (h.0 as nat, h.1@, h.2 as nat, final(r)@) == get_header(old(r)@),
{
    let m: [u8; 4] = [0x55, 0x4E, 0x49, 0x54];
    assert(m@ =~= magic());
    read_expected(r, m.as_slice());
    let kind = r.read_u8();
    let id = r.read_id();
    let port = r.read_u16();
    (kind, id, port)
}

/// A header is read back as it was written, and what follows it is left.
pub proof fn law_header_roundtrip(kind: u8, id: Seq<u8>, port: u16, t: Seq<u8>)
    requires
        id.len() == 8,
    ensures
        get_header(wire::input(header(kind, id, port) + t)) == (
            kind as nat,
            id,
            port as nat,
            wire::input(t),
        ),
{
    wire::lemma_pow256();
    let t2 = wire::w16(port as nat) + t;
    let t1 = id + t2;
    let t0 = wire::w8(kind as int) + t1;
    assert(header(kind, id, port) + t =~= magic() + t0);
    wire::lemma_get_bytes(magic(), t0);
    wire::lemma_get_u8(kind as nat, t1);
    wire::lemma_get_id(id, t2);
    wire::lemma_get_nat(port as nat, 2, t);
}

/// A message that is a header alone.
pub fn bare_message(kind: u8, id: &NodeId, port: u16) -> (buf: Vec<u8>)
    ensures
        buf@ == header(kind, id@, port),
{
    let mut buf: Vec<u8> = Vec::new();
    encode_header(&mut buf, kind, id, port);
    assert(buf@ =~= header(kind, id@, port));
    buf
}

// ---------------------------------------------------------------------------
// Short messages
// ---------------------------------------------------------------------------

/// A message that names a proposal or the like by number.
pub open spec fn numbered(kind: u8, id: Seq<u8>, port: u16, n: u64) -> Seq<u8> {
    header(kind, id, port) + wire::w64(n as nat)
}

/// A message that names a proposal or the like by number.
pub fn numbered_message(kind: u8, id: &NodeId, port: u16, n: u64) -> (buf: Vec<u8>)
    ensures
        buf@ == numbered(kind, id@, port, n),
{
    let mut buf = bare_message(kind, id, port);
    write_u64(&mut buf, n);
    buf
}

/// A proposal to replicate.
pub open spec fn proposal_bytes(id: Seq<u8>, port: u16, n: u64, reason: Seq<char>) -> Seq<u8> {
    numbered(MSG_PROPOSE, id, port, n) + wire::wtext(reason)
}

/// A proposal to replicate.
pub fn proposal_message(id: &NodeId, port: u16, n: u64, reason: &str) -> (buf: Vec<u8>)
    ensures
        buf@ == proposal_bytes(id@, port, n, reason@),
{
    let mut buf = numbered_message(MSG_PROPOSE, id, port, n);
    write_string(&mut buf, reason);
    buf
}

/// A vote on a proposal.
pub open spec fn vote_bytes(id: Seq<u8>, port: u16, n: u64, yes: bool) -> Seq<u8> {
    numbered(MSG_VOTE, id, port, n) + wire::w8(if yes {
        1int
    } else {
        0
    })
}

/// A vote on a proposal.
pub fn vote_message(id: &NodeId, port: u16, n: u64, yes: bool) -> (buf: Vec<u8>)
    ensures
        buf@ == vote_bytes(id@, port, n, yes),
{
    let mut buf = numbered_message(MSG_VOTE, id, port, n);
    write_u8(&mut buf, if yes {
        1
    } else {
        0
    });
    buf
}

/// The commitment of a proposal, with the state of the proposer.
pub open spec fn commit_bytes(id: Seq<u8>, port: u16, n: u64, state: Seq<u8>) -> Seq<u8> {
    numbered(MSG_COMMIT, id, port, n) + wire::w32(state.len()) + state
}

/// The commitment of a proposal, with the state of the proposer.
pub fn commit_message(id: &NodeId, port: u16, n: u64, state: &[u8]) -> (buf: Vec<u8>)
    ensures
        buf@ == commit_bytes(id@, port, n, state@),
{
    let mut buf = numbered_message(MSG_COMMIT, id, port, n);
    write_len32(&mut buf, state.len());
    write_bytes(&mut buf, state);
    buf
}

/// Data that a program sends.
pub open spec fn data_bytes(id: Seq<u8>, port: u16, data: Seq<u8>) -> Seq<u8> {
    header(MSG_DATA, id, port) + wire::w16(data.len()) + data
}

/// Data that a program sends.
pub fn data_message(id: &NodeId, port: u16, data: &[u8]) -> (buf: Vec<u8>)
    ensures
        buf@ == data_bytes(id@, port, data@),
{
    let mut buf = bare_message(MSG_DATA, id, port);
    write_len16(&mut buf, data.len());
    write_bytes(&mut buf, data);
    buf
}

/// The claim of a task.
pub open spec fn claim_bytes(id: Seq<u8>, port: u16, task: u64, goal: u64) -> Seq<u8> {
    numbered(MSG_TASK_CLAIM, id, port, task) + wire::w64(goal as nat)
}

/// The claim of a task.
pub fn claim_message(id: &NodeId, port: u16, task: u64, goal: u64) -> (buf: Vec<u8>)
    ensures
        buf@ == claim_bytes(id@, port, task, goal),
{
    let mut buf = numbered_message(MSG_TASK_CLAIM, id, port, task);
    write_u64(&mut buf, goal);
    buf
}

/// The definition of a word.
pub open spec fn word_bytes(id: Seq<u8>, port: u16, name: Seq<char>, source: Seq<char>) -> Seq<u8> {
    header(MSG_WORD_SHARE, id, port) + wire::wtext(name) + wire::wtext(source)
}

/// The definition of a word.
pub fn word_message(id: &NodeId, port: u16, name: &str, source: &str) -> (buf: Vec<u8>)
    ensures
        buf@ == word_bytes(id@, port, name@, source@),
{
    let mut buf = bare_message(MSG_WORD_SHARE, id, port);
    write_string(&mut buf, name);
    write_string(&mut buf, source);
    buf
}

/// What a message says of a result: whether it succeeded, its stack, its output and its error.
pub open spec fn w_outcome(r: ResultV) -> Seq<u8> {
    wire::w8(if r.success {
        1int
    } else {
        0
    }) + wire::w16(r.stack.len()) + codec::w_cells(r.stack) + wire::wtext(r.output) + wire::wtext(persist::error_text(r.error))
}

/// The result of a task.
pub open spec fn result_bytes(id: Seq<u8>, port: u16, task: u64, goal: u64, r: ResultV) -> Seq<u8> {
    numbered(MSG_TASK_RESULT, id, port, task) + wire::w64(goal as nat) + w_outcome(r)
}

/// The result of a task.
pub fn result_message(id: &NodeId, port: u16, task: u64, goal: u64, r: &TaskResult) -> (buf: Vec<u8>)
    ensures
        buf@ == result_bytes(id@, port, task, goal, r@),
{
    let mut buf = numbered_message(MSG_TASK_RESULT, id, port, task);
    write_u64(&mut buf, goal);
    let ghost start = buf@;
    write_u8(&mut buf, if r.success {
        1
    } else {
        0
    });
    write_len16(&mut buf, r.stack_snapshot.len());
    write_cells(&mut buf, &r.stack_snapshot, r.stack_snapshot.len());
    assert(r.stack_snapshot@.take(r.stack_snapshot@.len() as int) =~= r.stack_snapshot@);
    write_string(&mut buf, r.output.as_str());
    match &r.error {
        Some(e) => write_string(&mut buf, e.as_str()),
        None => {
            write_string(&mut buf, "");
            proof {
                reveal_strlit("");
                assert(""@ =~= Seq::<char>::empty());
            }
        },
    }
    assert(buf@ =~= start + w_outcome(r@));
    buf
}

/// Takes what a message says of a result. An error of no length stands for none.
pub open spec fn get_outcome(i: Input) -> (ResultV, Input) {
    let (s, i) = wire::get_nat(i, 1);
    let (n, i) = wire::get_nat(i, 2);
    let (stack, i) = codec::get_cells(i, n as int);
    let (output, i) = wire::get_text(i, 2);
    let (e, i) = wire::get_text(i, 2);
    (
        ResultV {
            stack,
            output,
            success: s != 0,
            error: if e.len() == 0 {
                None
            } else {
                Some(e)
            },
        },
        i,
    )
}

/// Reads what a message says of a result.
pub fn read_outcome(r: &mut Reader) -> (o: TaskResult)
    requires
        old(r).wf(),
        codec::canonical(old(r)@),
    ensures
        final(r).wf(),
        codec::canonical(final(r)@),
        final(r)@ == get_outcome(old(r)@).1,
        final(r)@.ok ==> o@ == get_outcome(old(r)@).0,
{
    let s = r.read_u8();
    let n = r.read_u16();
    let stack_snapshot = read_cells(r, n as u32);
    let output = r.read_string();
    let e = r.read_string();
    let empty = e.as_str().is_empty();
    TaskResult {
        stack_snapshot,
        output,
        success: s != 0,
        error: if empty {
            None
        } else {
            Some(e)
        },
    }
}

} // verus!
