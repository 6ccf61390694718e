//! Replication packages and the bookkeeping of spawned children.
//!
//! A package is a mark, a version, three sizes of eight bytes, and then the executable, the state
//! and the prelude.

use crate::goals;
use crate::text;
use crate::text::{push_u64, push_usize, text};
use crate::wire;
use crate::wire::{write_bytes, write_u64, NodeId};
use vstd::prelude::*;

verus! {

/// The size of a package's header.
pub const HEADER_SIZE: usize = 29;

/// The first bytes of a package.
pub open spec fn package_mark() -> Seq<u8> {
    seq![0x55u8, 0x52u8, 0x45u8, 0x50u8]
}

/// The version of the package format.
pub const PACKAGE_VERSION: u8 = 1;

/// A package.
pub open spec fn package(binary: Seq<u8>, state: Seq<u8>, prelude: Seq<u8>) -> Seq<u8> {
    package_mark() + seq![PACKAGE_VERSION] + wire::w64(binary.len()) + wire::w64(state.len()) + wire::w64(
        prelude.len(),
    ) + binary + state + prelude
}

/// Builds a package of an executable, a state and a prelude. An error in place of the executable
/// is handed on.
pub fn build_package(binary: Result<Vec<u8>, String>, state: &[u8], prelude: &[u8]) -> (r: Result<
    Vec<u8>,
    String,
>)
    ensures
        match binary {
            Ok(b) => r matches Ok(p) && p@ == package(b@, state@, prelude@),
            Err(e) => r matches Err(f) && f@ == e@,
        },
{
    match binary {
        Ok(b) => {
            let mut buf: Vec<u8> = Vec::new();
            buf.push(0x55);
            buf.push(0x52);
            buf.push(0x45);
            buf.push(0x50);
            buf.push(PACKAGE_VERSION);
            assert(buf@ =~= package_mark() + seq![PACKAGE_VERSION]);
            write_u64(&mut buf, b.len() as u64);
            write_u64(&mut buf, state.len() as u64);
            write_u64(&mut buf, prelude.len() as u64);
            write_bytes(&mut buf, &b);
            write_bytes(&mut buf, state);
            write_bytes(&mut buf, prelude);
            Ok(buf)
        },
        Err(e) => Err(e),
    }
}

/// The size that a package will have, from the sizes of its parts.
pub fn package_size_estimate(
    binary_size: Result<usize, String>,
    state_size: usize,
    prelude_size: usize,
) -> (r: Result<usize, String>)
    requires
        binary_size matches Ok(b) ==> HEADER_SIZE + b + state_size + prelude_size <= usize::MAX,
    ensures
        match binary_size {
            Ok(b) => r matches Ok(n) && n == HEADER_SIZE + b + state_size + prelude_size,
            Err(e) => r matches Err(f) && f@ == e@,
        },
{
    match binary_size {
        Ok(b) => Ok(HEADER_SIZE + b + state_size + prelude_size),
        Err(e) => Err(e),
    }
}

/// The three parts of a package.
pub type UnpackedPackage = (Vec<u8>, Vec<u8>, Vec<u8>);

/// The number in the eight bytes from `at` on.
pub open spec fn size_at(data: Seq<u8>, at: int) -> nat {
    wire::be_nat(data.subrange(at, at + 8))
}

/// The size that the header of a package promises.
pub open spec fn promised(data: Seq<u8>) -> nat {
    29 + size_at(data, 5) + size_at(data, 13) + size_at(data, 21)
}

/// Why bytes are no package.
pub open spec fn package_fault(data: Seq<u8>) -> Option<Seq<char>> {
    if data.len() < 29 {
        Some("package too small"@)
    } else if data.take(4) != package_mark() {
        Some("bad magic"@)
    } else if data[4] != PACKAGE_VERSION {
        Some("unsupported version "@ + text::dec(data[4] as nat))
    } else if data.len() < promised(data) {
        Some("truncated: have "@ + text::dec(data.len()) + " need "@ + text::dec(promised(data)))
    } else {
        None
    }
}

fn number_at(data: &[u8], at: usize) -> (n: u64)
    requires
        at + 8 <= data@.len(),
        data@.len() <= usize::MAX,
    ensures
        n == size_at(data@, at as int),
{
    let mut n: u64 = 0;
    let mut j: usize = 0;
    let ghost b = data@.subrange(at as int, at + 8);
    while j < 8
        invariant
            j <= 8,
            at + 8 <= data@.len() <= usize::MAX,
            b == data@.subrange(at as int, at + 8),
            n == wire::be_nat(b.take(j as int)),
        decreases 8 - j,
    {
        proof {
            wire::lemma_be_nat_bound(b.take(j as int));
            wire::lemma_pow256();
            wire::lemma_pow256_mono(j as nat, 7);
            reveal_with_fuel(wire::pow256, 9);
            assert(b.take(j + 1).drop_last() =~= b.take(j as int));
        }
        n = n * 256 + data[at + j] as u64;
        j = j + 1;
    }
    assert(b.take(8) =~= b);
    n
}

/// Appends the decimal numeral of a sum that may exceed 64 bits.
fn push_u128(s: &mut String, n: u128)
    ensures
        final(s)@ == old(s)@ + text::dec(n as nat),
    decreases n,
{
    if n >= 10 {
        push_u128(s, n / 10);
    }
    s.push(text::digit((n % 10) as u8));
    proof {
        reveal_with_fuel(text::dec, 2);
        assert(s@ =~= old(s)@ + text::dec(n as nat));
    }
}

fn copy_range(data: &[u8], from: usize, to: usize) -> (v: Vec<u8>)
    requires
        from <= to <= data@.len(),
    ensures
        v@ == data@.subrange(from as int, to as int),
{
    let mut v: Vec<u8> = Vec::new();
    let mut i: usize = from;
    while i < to
        invariant
            from <= i <= to <= data@.len(),
            v@ == data@.subrange(from as int, i as int),
        decreases to - i,
    {
        v.push(data[i]);
        i = i + 1;
        assert(v@ =~= data@.subrange(from as int, i as int));
    }
    v
}

/// Takes a package apart, or says why it is none.
pub fn unpack_package(data: &[u8]) -> (r: Result<UnpackedPackage, String>)
    ensures
        match package_fault(data@) {
            Some(e) => r matches Err(f) && f@ == e,
            None => r matches Ok(p) && ({
                let b = 29 + size_at(data@, 5);
                let s = b + size_at(data@, 13);
                let e = s + size_at(data@, 21);
                &&& p.0@ == data@.subrange(29, b as int)
                &&& p.1@ == data@.subrange(b as int, s as int)
                &&& p.2@ == data@.subrange(s as int, e as int)
            }),
        },
{
    if data.len() < HEADER_SIZE {
        return Err(text("package too small"));
    }
    if !(data[0] == 0x55 && data[1] == 0x52 && data[2] == 0x45 && data[3] == 0x50) {
        proof {
            let m = package_mark();
            let d = data@.take(4);
            assert(d[0] != m[0] || d[1] != m[1] || d[2] != m[2] || d[3] != m[3]);
        }
        return Err(text("bad magic"));
    }
    assert(data@.take(4) =~= package_mark());
    if data[4] != PACKAGE_VERSION {
        let mut e = text("unsupported version ");
        push_u64(&mut e, data[4] as u64);
        return Err(e);
    }
    let b = number_at(data, 5);
    let s = number_at(data, 13);
    let p = number_at(data, 21);
    let expected: u128 = 29 + b as u128 + s as u128 + p as u128;
    if (data.len() as u128) < expected {
        let mut e = text("truncated: have ");
        push_usize(&mut e, data.len());
        e.append(" need ");
        push_u128(&mut e, expected);
        return Err(e);
    }
    let b_end: usize = 29 + b as usize;
    let s_end: usize = b_end + s as usize;
    let p_end: usize = s_end + p as usize;
    Ok((copy_range(data, 29, b_end), copy_range(data, b_end, s_end), copy_range(data, s_end, p_end)))
}

/// A package is taken apart into the parts it was built of.
pub proof fn law_package_roundtrip(binary: Seq<u8>, state: Seq<u8>, prelude: Seq<u8>)
    requires
        binary.len() <= u64::MAX,
        state.len() <= u64::MAX,
        prelude.len() <= u64::MAX,
    ensures
        package_fault(package(binary, state, prelude)).is_none(),
        ({
            let d = package(binary, state, prelude);
            let b = 29 + size_at(d, 5);
            let s = b + size_at(d, 13);
            let e = s + size_at(d, 21);
            &&& d.subrange(29, b as int) == binary
            &&& d.subrange(b as int, s as int) == state
            &&& d.subrange(s as int, e as int) == prelude
        }),
{
    let d = package(binary, state, prelude);
    wire::lemma_pow256();
    wire::lemma_be(binary.len(), 8);
    wire::lemma_be(state.len(), 8);
    wire::lemma_be(prelude.len(), 8);
    assert(d.take(4) =~= package_mark());
    assert(d.subrange(5, 13) =~= wire::w64(binary.len()));
    assert(d.subrange(13, 21) =~= wire::w64(state.len()));
    assert(d.subrange(21, 29) =~= wire::w64(prelude.len()));
    let b = 29 + binary.len();
    let s = b + state.len();
    assert(d.subrange(29, b as int) =~= binary);
    assert(d.subrange(b as int, s as int) =~= state);
    assert(d.subrange(s as int, (s + prelude.len()) as int) =~= prelude);
}

/// The longest package that a listener takes in.
pub const MAX_PACKAGE: u64 = 100_000_000;

/// Whether a listener goes on to read a package of the announced size.
pub fn accepts_size(announced: u64) -> (b: bool)
    ensures
        b == (announced <= 100_000_000),
{
    announced <= MAX_PACKAGE
}

/// Whether received bytes start like a package.
pub fn starts_like_package(data: &[u8]) -> (b: bool)
    ensures
        b == (data@.len() >= 4 && data@.take(4) == package_mark()),
{
    if data.len() < 4 {
        return false;
    }
    let b: bool = data[0] == 0x55 && data[1] == 0x52 && data[2] == 0x45 && data[3] == 0x50;
    proof {
        if b {
            assert(data@.take(4) =~= package_mark());
        } else {
            let m = package_mark();
            let d = data@.take(4);
            assert(d[0] != m[0] || d[1] != m[1] || d[2] != m[2] || d[3] != m[3]);
        }
    }
    b
}

/// The bytes that carry a package to another host: its length in eight bytes, then the package.
pub fn frame_package(package: &[u8]) -> (buf: Vec<u8>)
    ensures
        buf@ == wire::w64(package@.len()) + package@,
{
    let mut buf: Vec<u8> = Vec::new();
    write_u64(&mut buf, package.len() as u64);
    write_bytes(&mut buf, package);
    assert(buf@ =~= wire::w64(package@.len()) + package@);
    buf
}

/// A spawned child. Times are milliseconds of the machine's clock.
#[derive(Clone, Copy, Debug)]
pub struct ChildInfo {
    pub pid: u32,
    pub port: u16,
    pub node_id: NodeId,
    pub spawned_at: u64,
}

/// The mathematical form of a child.
#[verifier::ext_equal]
pub struct ChildV {
    pub pid: u32,
    pub port: u16,
    pub node_id: Seq<u8>,
    pub spawned_at: u64,
}

impl View for ChildInfo {
    type V = ChildV;

    open spec fn view(&self) -> ChildV {
        ChildV {
            pid: self.pid,
            port: self.port,
            node_id: self.node_id@,
            spawned_at: self.spawned_at,
        }
    }
}

/// The children of a unit and the rules for spawning more.
#[derive(Debug)]
pub struct SpawnState {
    pub children: Vec<ChildInfo>,
    pub generation: u32,
    pub parent_id: Option<NodeId>,
    pub max_children: usize,
    pub accept_replicate: bool,
    pub quarantine: bool,
    pub last_spawn: Option<u64>,
    pub spawn_cooldown_secs: u64,
}

/// The mathematical form of the spawning state.
#[verifier::ext_equal]
pub struct SpawnV {
    pub children: Seq<ChildV>,
    pub generation: u32,
    pub parent_id: Option<Seq<u8>>,
    pub max_children: usize,
    pub accept_replicate: bool,
    pub quarantine: bool,
    pub last_spawn: Option<u64>,
    pub spawn_cooldown_secs: u64,
}

/// The mathematical form of a row of children.
pub open spec fn child_views(s: Seq<ChildInfo>) -> Seq<ChildV> {
    Seq::new(s.len(), |i: int| s[i]@)
}

impl View for SpawnState {
    type V = SpawnV;

    open spec fn view(&self) -> SpawnV {
        SpawnV {
            children: child_views(self.children@),
            generation: self.generation,
            parent_id: goals::opt_id(self.parent_id),
            max_children: self.max_children,
            accept_replicate: self.accept_replicate,
            quarantine: self.quarantine,
            last_spawn: self.last_spawn,
            spawn_cooldown_secs: self.spawn_cooldown_secs,
        }
    }
}

/// A unit without parent or children.
pub open spec fn lone() -> SpawnV {
    SpawnV {
        children: Seq::empty(),
        generation: 0,
        parent_id: None,
        max_children: 10,
        accept_replicate: true,
        quarantine: false,
        last_spawn: None,
        spawn_cooldown_secs: 30,
    }
}

/// Whole seconds from `start` to `now`; none if `now` lies before `start`.
pub open spec fn seconds_between(start: u64, now: u64) -> int {
    if now < start {
        0
    } else {
        (now - start) / 1000
    }
}

/// Why no child may be spawned now.
pub open spec fn spawn_refusal(s: SpawnV, now: u64) -> Option<Seq<char>> {
    if s.quarantine {
        Some("quarantine active"@)
    } else if s.children.len() >= s.max_children {
        Some("max children reached ("@ + text::dec(s.max_children as nat) + ")"@)
    } else {
        match s.last_spawn {
            Some(last) => if seconds_between(last, now) < s.spawn_cooldown_secs {
                Some(
                    "cooldown: "@ + text::dec(
                        (s.spawn_cooldown_secs - seconds_between(last, now)) as nat,
                    ) + "s remaining"@,
                )
            } else {
                None
            },
            None => None,
        }
    }
}

/// Whole seconds from `start` to `now`.
pub fn seconds_since(start: u64, now: u64) -> (n: u64)
    ensures
        n == seconds_between(start, now),
{
    if now < start {
        0
    } else {
        (now - start) / 1000
    }
}

impl Default for SpawnState {
    fn default() -> (r: Self)
        ensures
            r@ == lone(),
    {
        Self::new()
    }
}

impl SpawnState {
    /// A unit without parent or children.
    pub fn new() -> (r: Self)
        ensures
            r@ == lone(),
    {
        let r = SpawnState {
            children: Vec::new(),
            generation: 0,
            parent_id: None,
            max_children: 10,
            accept_replicate: true,
            quarantine: false,
            last_spawn: None,
            spawn_cooldown_secs: 30,
        };
        assert(r@.children =~= Seq::<ChildV>::empty());
        r
    }

    /// Whether a child may be spawned at `now`, or why not.
    pub fn can_spawn(&self, now: u64) -> (r: Result<(), String>)
        ensures
            match spawn_refusal(self@, now) {
                Some(e) => r matches Err(f) && f@ == e,
                None => r.is_ok(),
            },
    {
        if self.quarantine {
            return Err(text("quarantine active"));
        }
        if self.children.len() >= self.max_children {
            let mut e = text("max children reached (");
            push_usize(&mut e, self.max_children);
            e.append(")");
            return Err(e);
        }
        if let Some(last) = self.last_spawn {
            let n = seconds_since(last, now);
            if n < self.spawn_cooldown_secs {
                let mut e = text("cooldown: ");
                push_u64(&mut e, self.spawn_cooldown_secs - n);
                e.append("s remaining");
                return Err(e);
            }
        }
        Ok(())
    }

    /// Adds a child.
    pub fn add_child(&mut self, c: ChildInfo)
        ensures
            final(self)@ == (SpawnV { children: old(self)@.children.push(c@), ..old(self)@ }),
    {
        self.children.push(c);
        assert(self@.children =~= old(self)@.children.push(c@));
    }

    /// Forgets the children with a process number.
    pub fn forget_child(&mut self, pid: u32)
        ensures
            final(self)@ == (SpawnV { children: others(old(self)@.children, pid), ..old(self)@ }),
    {
        let mut kept: Vec<ChildInfo> = Vec::new();
        let mut i: usize = 0;
        assert(child_views(kept@) =~= others(self@.children.take(0), pid));
        while i < self.children.len()
            invariant
                i <= self.children@.len(),
                self == old(self),
                child_views(kept@) == others(self@.children.take(i as int), pid),
            decreases self.children@.len() - i,
        {
            let ghost before = child_views(kept@);
            assert(self@.children.take(i + 1).drop_last() =~= self@.children.take(i as int));
            if self.children[i].pid != pid {
                kept.push(self.children[i]);
                assert(child_views(kept@) =~= before.push(self.children@[i as int]@));
            }
            i = i + 1;
        }
        assert(self@.children.take(i as int) =~= self@.children);
        self.children = kept;
    }
}

/// The children with another process number.
pub open spec fn others(s: Seq<ChildV>, pid: u32) -> Seq<ChildV>
    decreases s.len(),
{
    if s.len() == 0 {
        Seq::empty()
    } else if s.last().pid != pid {
        others(s.drop_last(), pid).push(s.last())
    } else {
        others(s.drop_last(), pid)
    }
}

} // verus!
