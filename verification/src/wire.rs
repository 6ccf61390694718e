//! The byte format shared by packets and state files: big-endian numbers, counted strings, and a
//! reader that remembers whether any read ran past the end.

use vstd::prelude::*;
use vstd::utf8::*;

verus! {

/// Identity of a node: eight bytes.
pub type NodeId = [u8; 8];

/// `n` in `k` bytes, the most significant first. Higher bytes of `n` are dropped.
pub open spec fn be(n: nat, k: nat) -> Seq<u8>
    decreases k,
{
    if k == 0 {
        Seq::empty()
    } else {
        be(n / 256, (k - 1) as nat).push((n % 256) as u8)
    }
}

/// The number that a row of bytes stands for, the most significant first.
pub open spec fn be_nat(s: Seq<u8>) -> nat
    decreases s.len(),
{
    if s.len() == 0 {
        0
    } else {
        be_nat(s.drop_last()) * 256 + s.last() as nat
    }
}

/// The number of values that `k` bytes can hold.
pub open spec fn pow256(k: nat) -> nat
    decreases k,
{
    if k == 0 {
        1
    } else {
        256 * pow256((k - 1) as nat)
    }
}

/// The values of `pow256` at the sizes in use.
pub proof fn lemma_pow256()
    ensures
        pow256(1) == 256,
        pow256(2) == 65536,
        pow256(4) == 4294967296,
        pow256(8) == 18446744073709551616,
{
    reveal_with_fuel(pow256, 9);
}

/// `be` gives `k` bytes, and they stand for the number if `k` bytes can hold it.
pub proof fn lemma_be(n: nat, k: nat)
    ensures
        be(n, k).len() == k,
        n < pow256(k) ==> be_nat(be(n, k)) == n,
    decreases k,
{
    if k > 0 {
        lemma_be(n / 256, (k - 1) as nat);
        assert(be(n, k).drop_last() =~= be(n / 256, (k - 1) as nat));
    }
}

/// A row of bytes stands for a number that as many bytes can hold.
pub proof fn lemma_be_nat_bound(s: Seq<u8>)
    ensures
        be_nat(s) < pow256(s.len()),
    decreases s.len(),
{
    if s.len() > 0 {
        lemma_be_nat_bound(s.drop_last());
    }
}

/// Only the low `k` bytes of a number are written.
pub proof fn lemma_be_mod(n: nat, k: nat)
    ensures
        be(n, k) == be(n % pow256(k), k),
    decreases k,
{
    if k > 0 {
        let p = pow256((k - 1) as nat);
        lemma_pow256_positive((k - 1) as nat);
        lemma_be_mod(n / 256, (k - 1) as nat);
        lemma_be_mod((n % pow256(k)) / 256, (k - 1) as nat);
        vstd::arithmetic::div_mod::lemma_mod_breakdown(n as int, 256, p as int);
        assert((n % pow256(k)) / 256 == (n / 256) % p && (n % pow256(k)) % 256 == n % 256) by {
            let r = (n / 256) % p;
            assert(n % pow256(k) == 256 * r + n % 256);
        }
    }
}

/// `pow256` is positive.
pub proof fn lemma_pow256_positive(k: nat)
    ensures
        pow256(k) > 0,
    decreases k,
{
    if k > 0 {
        lemma_pow256_positive((k - 1) as nat);
    }
}

/// The unsigned 64-bit number with the same bits as `i`.
pub open spec fn unsigned(i: int) -> nat {
    if i < 0 {
        (i + 0x1_0000_0000_0000_0000) as nat
    } else {
        i as nat
    }
}

/// The signed 64-bit number with the same bits as `n`.
pub open spec fn signed(n: nat) -> int {
    if n >= 0x8000_0000_0000_0000 {
        n - 0x1_0000_0000_0000_0000
    } else {
        n as int
    }
}

/// The same bits, read as unsigned.
pub fn to_unsigned(i: i64) -> (n: u64)
    ensures
        n == unsigned(i as int),
{
    assert(i < 0 ==> (i as u64) == i + 0x1_0000_0000_0000_0000) by (bit_vector);
    i as u64
}

/// The same bits, read as signed.
pub fn to_signed(n: u64) -> (i: i64)
    ensures
        i == signed(n as nat),
{
    assert(n >= 0x8000_0000_0000_0000 ==> (n as i64) == n - 0x1_0000_0000_0000_0000) by (bit_vector);
    n as i64
}

/// A number in one byte.
pub open spec fn w8(n: int) -> Seq<u8> {
    seq![n as u8]
}

/// A number in two bytes.
pub open spec fn w16(n: nat) -> Seq<u8> {
    be(n, 2)
}

/// A number in four bytes.
pub open spec fn w32(n: nat) -> Seq<u8> {
    be(n, 4)
}

/// A number in eight bytes.
pub open spec fn w64(n: nat) -> Seq<u8> {
    be(n, 8)
}

/// A signed number in eight bytes.
pub open spec fn wi64(i: int) -> Seq<u8> {
    be(unsigned(i), 8)
}

/// A text as its length in two bytes and its UTF-8 bytes.
pub open spec fn wtext(s: Seq<char>) -> Seq<u8> {
    w16(encode_utf8(s).len()) + encode_utf8(s)
}

/// A text as its length in four bytes and its UTF-8 bytes.
pub open spec fn wlong(s: Seq<char>) -> Seq<u8> {
    w32(encode_utf8(s).len()) + encode_utf8(s)
}

fn write_be(buf: &mut Vec<u8>, v: u64, k: u8)
    ensures
        final(buf)@ == old(buf)@ + be(v as nat, k as nat),
    decreases k,
{
    if k > 0 {
        write_be(buf, v / 256, k - 1);
        buf.push((v % 256) as u8);
    }
    assert(buf@ =~= old(buf)@ + be(v as nat, k as nat));
}

/// Appends one byte.
pub fn write_u8(buf: &mut Vec<u8>, v: u8)
    ensures
        final(buf)@ == old(buf)@ + w8(v as int),
{
    buf.push(v);
    assert(buf@ =~= old(buf)@ + w8(v as int));
}

/// Appends two bytes.
pub fn write_u16(buf: &mut Vec<u8>, v: u16)
    ensures
        final(buf)@ == old(buf)@ + w16(v as nat),
{
    write_be(buf, v as u64, 2);
}

/// Appends four bytes.
pub fn write_u32(buf: &mut Vec<u8>, v: u32)
    ensures
        final(buf)@ == old(buf)@ + w32(v as nat),
{
    write_be(buf, v as u64, 4);
}

/// Appends eight bytes.
pub fn write_u64(buf: &mut Vec<u8>, v: u64)
    ensures
        final(buf)@ == old(buf)@ + w64(v as nat),
{
    write_be(buf, v, 8);
}

/// Appends a signed number in eight bytes.
pub fn write_i64(buf: &mut Vec<u8>, v: i64)
    ensures
        final(buf)@ == old(buf)@ + wi64(v as int),
{
    write_be(buf, to_unsigned(v), 8);
}

/// Appends the low two bytes of a size.
pub fn write_len16(buf: &mut Vec<u8>, n: usize)
    ensures
        final(buf)@ == old(buf)@ + w16(n as nat),
{
    write_be(buf, n as u64, 2);
}

/// Appends the low four bytes of a size.
pub fn write_len32(buf: &mut Vec<u8>, n: usize)
    ensures
        final(buf)@ == old(buf)@ + w32(n as nat),
{
    write_be(buf, n as u64, 4);
}

/// Appends a row of bytes.
pub fn write_bytes(buf: &mut Vec<u8>, data: &[u8])
    ensures
        final(buf)@ == old(buf)@ + data@,
{
    let mut i: usize = 0;
    assert(buf@ =~= old(buf)@ + data@.take(0));
    while i < data.len()
        invariant
            i <= data@.len(),
            buf@ == old(buf)@ + data@.take(i as int),
        decreases data@.len() - i,
    {
        buf.push(data[i]);
        i = i + 1;
        assert(buf@ =~= old(buf)@ + data@.take(i as int));
    }
    assert(data@.take(i as int) =~= data@);
}

/// Appends a node identity.
pub fn write_id(buf: &mut Vec<u8>, id: &NodeId)
    ensures
        final(buf)@ == old(buf)@ + id@,
{
    write_bytes(buf, id.as_slice());
}

/// Appends a text with its length in two bytes. Of a length above 65535 only the low two bytes
/// are kept.
pub fn write_string(buf: &mut Vec<u8>, s: &str)
    ensures
        final(buf)@ == old(buf)@ + wtext(s@),
{
    let b = s.as_bytes();
    write_len16(buf, b.len());
    write_bytes(buf, b);
    assert(buf@ =~= old(buf)@ + wtext(s@));
}

/// Appends a text with its length in four bytes.
pub fn write_long_string(buf: &mut Vec<u8>, s: &str)
    ensures
        final(buf)@ == old(buf)@ + wlong(s@),
{
    let b = s.as_bytes();
    write_len32(buf, b.len());
    write_bytes(buf, b);
    assert(buf@ =~= old(buf)@ + wlong(s@));
}

/// The text that `String::from_utf8_lossy` makes of bytes that are no valid UTF-8.
pub uninterp spec fn lossy(bytes: Seq<u8>) -> Seq<char>;

/// The text of a row of bytes: decoded as UTF-8 if it is valid, else with the invalid parts
/// replaced.
pub open spec fn text_of(bytes: Seq<u8>) -> Seq<char> {
    if valid_utf8(bytes) {
        decode_utf8(bytes)
    } else {
        lossy(bytes)
    }
}

/// Calls `String::from_utf8_lossy`. Valid UTF-8 is decoded as it stands; of other bytes the text
/// depends on the bytes alone.
#[verifier::external_body]
pub(crate) fn from_lossy(bytes: &[u8]) -> (s: String)
    ensures
        valid_utf8(bytes@) ==> s@ == decode_utf8(bytes@),
        !valid_utf8(bytes@) ==> s@ == lossy(bytes@),
{
    String::from_utf8_lossy(bytes).into_owned()
}

/// What is left to read, and whether every read so far stayed within the bytes.
#[verifier::ext_equal]
pub struct Input {
    pub rest: Seq<u8>,
    pub ok: bool,
}

/// The input after a read that ran past the end.
pub open spec fn failed() -> Input {
    Input { rest: Seq::empty(), ok: false }
}

/// An input that holds these bytes.
pub open spec fn input(bytes: Seq<u8>) -> Input {
    Input { rest: bytes, ok: true }
}

/// Takes `n` bytes.
pub open spec fn get_bytes(i: Input, n: int) -> (Seq<u8>, Input) {
    if i.ok && n <= i.rest.len() {
        (i.rest.take(n), input(i.rest.skip(n)))
    } else {
        (Seq::empty(), failed())
    }
}

/// Takes a number of `k` bytes.
pub open spec fn get_nat(i: Input, k: int) -> (nat, Input) {
    let (b, i) = get_bytes(i, k);
    (be_nat(b), i)
}

/// Takes a signed number of eight bytes.
pub open spec fn get_int(i: Input) -> (int, Input) {
    let (n, i) = get_nat(i, 8);
    (signed(n), i)
}

/// Takes a text with its length in `k` bytes.
pub open spec fn get_text(i: Input, k: int) -> (Seq<char>, Input) {
    let (n, i) = get_nat(i, k);
    let (b, i) = get_bytes(i, n as int);
    (if i.ok {
        text_of(b)
    } else {
        Seq::empty()
    }, i)
}

/// Takes a node identity; eight zeros if the input has run out.
pub open spec fn get_id(i: Input) -> (Seq<u8>, Input) {
    let (b, i) = get_bytes(i, 8);
    (if i.ok {
        b
    } else {
        zero_id()
    }, i)
}

/// The identity of eight zero bytes.
pub open spec fn zero_id() -> Seq<u8> {
    seq![0, 0, 0, 0, 0, 0, 0, 0]
}

/// Reads the byte format front to back.
pub struct Reader<'a> {
    data: &'a [u8],
    pos: usize,
    ok: bool,
}

impl<'a> Reader<'a> {
    /// The position lies within the bytes.
    pub closed spec fn wf(self) -> bool {
        self.pos <= self.data@.len()
    }

    /// What is left to read.
    pub closed spec fn view(&self) -> Input {
        if self.ok {
            input(self.data@.skip(self.pos as int))
        } else {
            failed()
        }
    }

    /// A reader at the start of `data`.
    pub fn new(data: &'a [u8]) -> (r: Reader<'a>)
        ensures
            r.wf(),
            r@ == input(data@),
    {
        assert(data@.skip(0) =~= data@);
        Reader { data, pos: 0, ok: true }
    }

    /// Whether every read so far stayed within the bytes.
    pub fn good(&self) -> (b: bool)
        ensures
            b == self@.ok,
    {
        self.ok
    }

    /// Makes every further read fail.
    pub fn fail(&mut self)
        requires
            old(self).wf(),
        ensures
            final(self).wf(),
            final(self)@ == failed(),
    {
        self.ok = false;
    }

    /// Whether all bytes have been read.
    pub fn remaining(&self) -> (n: usize)
        requires
            self.wf(),
        ensures
            self@.ok ==> n == self@.rest.len(),
    {
        self.data.len() - self.pos
    }

    fn number(&mut self, k: u8) -> (n: u64)
        requires
            old(self).wf(),
            k <= 8,
        ensures
            final(self).wf(),
            (n as nat, final(self)@) == get_nat(old(self)@, k as int),
    {
        if !self.ok || self.data.len() - self.pos < k as usize {
            self.ok = false;
            return 0;
        }
        let ghost b = old(self)@.rest.take(k as int);
        let mut n: u64 = 0;
        let mut j: u8 = 0;
        while j < k
            invariant
                j <= k <= 8,
                self.data == old(self).data,
                self.pos == old(self).pos,
                self.ok,
                self.pos + k <= self.data@.len() <= usize::MAX,
                b == self.data@.skip(self.pos as int).take(k as int),
                n == be_nat(b.take(j as int)),
            decreases k - j,
        {
            proof {
                lemma_be_nat_bound(b.take(j as int));
                lemma_pow256();
                lemma_pow256_mono(j as nat, 7);
                reveal_with_fuel(pow256, 9);
                assert(b.take(j + 1).drop_last() =~= b.take(j as int));
            }
            n = n * 256 + self.data[self.pos + j as usize] as u64;
            j = j + 1;
        }
        assert(b.take(k as int) =~= b);
        self.pos = self.pos + k as usize;
        assert(self.data@.skip(self.pos as int) =~= old(self)@.rest.skip(k as int));
        n
    }

    /// Takes one byte.
    pub fn read_u8(&mut self) -> (n: u8)
        requires
            old(self).wf(),
        ensures
            final(self).wf(),
            (n as nat, final(self)@) == get_nat(old(self)@, 1),
    {
        let n = self.number(1);
        proof {
            lemma_be_nat_bound(get_bytes(old(self)@, 1).0);
            reveal_with_fuel(pow256, 2);
        }
        n as u8
    }

    /// Takes two bytes.
    pub fn read_u16(&mut self) -> (n: u16)
        requires
            old(self).wf(),
        ensures
            final(self).wf(),
            (n as nat, final(self)@) == get_nat(old(self)@, 2),
    {
        let n = self.number(2);
        proof {
            lemma_be_nat_bound(get_bytes(old(self)@, 2).0);
            reveal_with_fuel(pow256, 3);
        }
        n as u16
    }

    /// Takes four bytes.
    pub fn read_u32(&mut self) -> (n: u32)
        requires
            old(self).wf(),
        ensures
            final(self).wf(),
            (n as nat, final(self)@) == get_nat(old(self)@, 4),
    {
        let n = self.number(4);
        proof {
            lemma_be_nat_bound(get_bytes(old(self)@, 4).0);
            reveal_with_fuel(pow256, 5);
        }
        n as u32
    }

    /// Takes eight bytes.
    pub fn read_u64(&mut self) -> (n: u64)
        requires
            old(self).wf(),
        ensures
            final(self).wf(),
            (n as nat, final(self)@) == get_nat(old(self)@, 8),
    {
        self.number(8)
    }

    /// Takes a signed number of eight bytes.
    pub fn read_i64(&mut self) -> (n: i64)
        requires
            old(self).wf(),
        ensures
            final(self).wf(),
            (n as int, final(self)@) == get_int(old(self)@),
    {
        let n = self.number(8);
        to_signed(n)
    }

    /// Takes `n` bytes.
    pub fn read_bytes(&mut self, n: usize) -> (v: Vec<u8>)
        requires
            old(self).wf(),
        ensures
            final(self).wf(),
            (v@, final(self)@) == get_bytes(old(self)@, n as int),
    {
        let mut v: Vec<u8> = Vec::new();
        if !self.ok || self.data.len() - self.pos < n {
            self.ok = false;
            return v;
        }
        let ghost rest = old(self)@.rest;
        let mut j: usize = 0;
        while j < n
            invariant
                j <= n,
                self.data == old(self).data,
                self.pos == old(self).pos,
                self.ok,
                self.pos + n <= self.data@.len(),
                self.data@.len() <= usize::MAX,
                rest == self.data@.skip(self.pos as int),
                v@ == rest.take(j as int),
            decreases n - j,
        {
            v.push(self.data[self.pos + j]);
            j = j + 1;
            assert(v@ =~= rest.take(j as int));
        }
        self.pos = self.pos + n;
        assert(self.data@.skip(self.pos as int) =~= rest.skip(n as int));
        v
    }

    /// Takes a node identity.
    pub fn read_id(&mut self) -> (id: NodeId)
        requires
            old(self).wf(),
        ensures
            final(self).wf(),
            (id@, final(self)@) == get_id(old(self)@),
    {
        let b = self.read_bytes(8);
        if self.ok {
            let id: NodeId = [b[0], b[1], b[2], b[3], b[4], b[5], b[6], b[7]];
            assert(id@ =~= b@);
            id
        } else {
            let id: NodeId = [0, 0, 0, 0, 0, 0, 0, 0];
            assert(id@ =~= zero_id());
            id
        }
    }

    /// Takes a text with its length in two bytes. Bytes that are no UTF-8 are replaced.
    pub fn read_string(&mut self) -> (s: String)
        requires
            old(self).wf(),
        ensures
            final(self).wf(),
            (s@, final(self)@) == get_text(old(self)@, 2),
    {
        let n = self.read_u16();
        let b = self.read_bytes(n as usize);
        if self.ok {
            from_lossy(&b)
        } else {
            let s = String::new();
            assert(s@ =~= Seq::<char>::empty());
            s
        }
    }

    /// Takes a text with its length in four bytes. Bytes that are no UTF-8 are replaced.
    pub fn read_long_string(&mut self) -> (s: String)
        requires
            old(self).wf(),
        ensures
            final(self).wf(),
            (s@, final(self)@) == get_text(old(self)@, 4),
    {
        let n = self.read_u32();
        let b = self.read_bytes(n as usize);
        if self.ok {
            from_lossy(&b)
        } else {
            let s = String::new();
            assert(s@ =~= Seq::<char>::empty());
            s
        }
    }
}

/// `pow256` grows with its argument.
pub proof fn lemma_pow256_mono(j: nat, k: nat)
    requires
        j <= k,
    ensures
        pow256(j) <= pow256(k),
    decreases k,
{
    if j < k {
        lemma_pow256_mono(j, (k - 1) as nat);
    }
}

/// Appending is associative.
pub proof fn lemma_assoc(a: Seq<u8>, b: Seq<u8>, c: Seq<u8>)
    ensures
        (a + b) + c == a + (b + c),
{
    assert((a + b) + c =~= a + (b + c));
}

/// Taking as many bytes as were put gives them back.
pub proof fn lemma_get_bytes(b: Seq<u8>, t: Seq<u8>)
    ensures
        get_bytes(input(b + t), b.len() as int) == (b, input(t)),
{
    assert((b + t).take(b.len() as int) =~= b);
    assert((b + t).skip(b.len() as int) =~= t);
}

/// Taking a number gives back the one put.
pub proof fn lemma_get_nat(n: nat, k: nat, t: Seq<u8>)
    requires
        n < pow256(k),
    ensures
        get_nat(input(be(n, k) + t), k as int) == (n, input(t)),
{
    lemma_be(n, k);
    lemma_get_bytes(be(n, k), t);
}

/// Taking a byte gives back the one put.
pub proof fn lemma_get_u8(n: nat, t: Seq<u8>)
    requires
        n < 256,
    ensures
        get_nat(input(w8(n as int) + t), 1) == (n, input(t)),
{
    lemma_pow256();
    reveal_with_fuel(be, 2);
    assert(be(n, 1) =~= w8(n as int));
    lemma_get_nat(n, 1, t);
}

/// Taking a signed number gives back the one put.
pub proof fn lemma_get_int(i: int, t: Seq<u8>)
    requires
        i64::MIN <= i <= i64::MAX,
    ensures
        get_int(input(wi64(i) + t)) == (i, input(t)),
{
    lemma_pow256();
    lemma_get_nat(unsigned(i), 8, t);
}

/// Taking a text gives back the one put, if its length fits in the bytes for it.
pub proof fn lemma_get_text(s: Seq<char>, k: nat, t: Seq<u8>)
    requires
        encode_utf8(s).len() < pow256(k),
    ensures
        get_text(input(be(encode_utf8(s).len(), k) + encode_utf8(s) + t), k as int) == (s, input(t)),
{
    let b = encode_utf8(s);
    encode_utf8_valid_utf8(s);
    encode_utf8_decode_utf8(s);
    assert(be(b.len(), k) + b + t =~= be(b.len(), k) + (b + t));
    lemma_get_nat(b.len(), k, b + t);
    lemma_get_bytes(b, t);
}

/// Taking an identity gives back the one put.
pub proof fn lemma_get_id(id: Seq<u8>, t: Seq<u8>)
    requires
        id.len() == 8,
    ensures
        get_id(input(id + t)) == (id, input(t)),
{
    lemma_get_bytes(id, t);
}

/// Tests two identities for equality.
pub fn same_id(a: &NodeId, b: &NodeId) -> (r: bool)
    ensures
        r == (a@ == b@),
{
    let mut i: usize = 0;
    while i < 8
        invariant
            i <= 8,
            forall|j: int| 0 <= j < i ==> a@[j] == b@[j],
        decreases 8 - i,
    {
        if a[i] != b[i] {
            return false;
        }
        i = i + 1;
    }
    assert(a@ =~= b@);
    true
}

} // verus!
