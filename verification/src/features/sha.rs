//! SHA-1 and Base64, as far as the WebSocket handshake needs them.

use crate::wire;
use crate::wire::write_u64;
use vstd::prelude::*;

verus! {

/// The five words of a digest.
#[derive(Clone, Copy)]
pub struct Digest {
    pub a: u32,
    pub b: u32,
    pub c: u32,
    pub d: u32,
    pub e: u32,
}

/// The digest before the first block.
pub open spec fn start() -> Digest {
    Digest { a: 0x67452301, b: 0xEFCDAB89, c: 0x98BADCFE, d: 0x10325476, e: 0xC3D2E1F0 }
}

/// A message with a one bit, zeros and its length in bits behind it; the whole is a number of
/// blocks of 64 bytes.
pub open spec fn padded(m: Seq<u8>) -> Seq<u8> {
    m + seq![0x80u8] + Seq::new(((119 - m.len() % 64) % 64) as nat, |i: int| 0u8) + wire::w64(m.len() * 8)
}

/// Word `i` of a block.
pub open spec fn word(block: Seq<u8>, i: int) -> u32 {
    wire::be_nat(block.subrange(i * 4, i * 4 + 4)) as u32
}

/// The bits of `x` turned left by `n`.
pub open spec fn turned(x: u32, n: u32) -> u32 {
    (x << n) | (x >> (32 - n) as u32)
}

/// The first `n` words of the schedule of a block.
pub open spec fn schedule(block: Seq<u8>, n: int) -> Seq<u32>
    decreases n,
{
    if n <= 0 {
        Seq::empty()
    } else {
        let w = schedule(block, n - 1);
        if n <= 16 {
            w.push(word(block, n - 1))
        } else {
            w.push(turned(w[n - 4] ^ w[n - 9] ^ w[n - 15] ^ w[n - 17], 1))
        }
    }
}

/// The round function of round `i`.
pub open spec fn mix(s: Digest, i: int) -> u32 {
    if i < 20 {
        (s.b & s.c) | ((!s.b) & s.d)
    } else if i < 40 {
        s.b ^ s.c ^ s.d
    } else if i < 60 {
        (s.b & s.c) | (s.b & s.d) | (s.c & s.d)
    } else {
        s.b ^ s.c ^ s.d
    }
}

/// The constant of round `i`.
pub open spec fn constant(i: int) -> u32 {
    if i < 20 {
        0x5A827999
    } else if i < 40 {
        0x6ED9EBA1
    } else if i < 60 {
        0x8F1BBCDC
    } else {
        0xCA62C1D6
    }
}

/// Round `i` with schedule word `w`.
pub open spec fn round(s: Digest, w: u32, i: int) -> Digest {
    Digest {
        a: turned(s.a, 5).wrapping_add(mix(s, i)).wrapping_add(s.e).wrapping_add(
            constant(i),
        ).wrapping_add(w),
        b: s.a,
        c: turned(s.b, 30),
        d: s.c,
        e: s.d,
    }
}

/// The first `n` rounds.
pub open spec fn rounds(s: Digest, w: Seq<u32>, n: int) -> Digest
    decreases n,
{
    if n <= 0 {
        s
    } else {
        round(rounds(s, w, n - 1), w[n - 1], n - 1)
    }
}

/// The digest after one more block.
pub open spec fn absorbed(h: Digest, block: Seq<u8>) -> Digest {
    let s = rounds(h, schedule(block, 80), 80);
    Digest {
        a: h.a.wrapping_add(s.a),
        b: h.b.wrapping_add(s.b),
        c: h.c.wrapping_add(s.c),
        d: h.d.wrapping_add(s.d),
        e: h.e.wrapping_add(s.e),
    }
}

/// The digest after the first `n` blocks.
pub open spec fn digest(m: Seq<u8>, n: int) -> Digest
    decreases n,
{
    if n <= 0 {
        start()
    } else {
        absorbed(digest(m, n - 1), m.subrange((n - 1) * 64, n * 64))
    }
}

/// The SHA-1 hash of a message.
pub open spec fn sha1_hash(m: Seq<u8>) -> Seq<u8> {
    let p = padded(m);
    let h = digest(p, p.len() as int / 64);
    wire::w32(h.a as nat) + wire::w32(h.b as nat) + wire::w32(h.c as nat) + wire::w32(h.d as nat) + wire::w32(h.e as nat)
}

fn turn(x: u32, n: u32) -> (r: u32)
    requires
        0 < n < 32,
    ensures
        r == turned(x, n),
{
    (x << n) | (x >> (32 - n))
}

fn block_word(m: &[u8], at: usize) -> (r: u32)
    requires
        at + 4 <= m@.len(),
        m@.len() <= usize::MAX,
    ensures
        r == wire::be_nat(m@.subrange(at as int, at + 4)) as u32,
{
    let r: u32 = ((m[at] as u32 * 256 + m[at + 1] as u32) * 256 + m[at + 2] as u32) * 256 + m[at
        + 3] as u32;
    proof {
        let b = m@.subrange(at as int, at + 4);
        assert(b.drop_last() =~= m@.subrange(at as int, at + 3));
        assert(b.drop_last().drop_last() =~= m@.subrange(at as int, at + 2));
        assert(b.drop_last().drop_last().drop_last() =~= m@.subrange(at as int, at + 1));
        assert(b.drop_last().drop_last().drop_last().drop_last() =~= Seq::<u8>::empty());
        reveal_with_fuel(wire::be_nat, 5);
    }
    r
}

fn absorb(h: Digest, m: &[u8], from: usize) -> (r: Digest)
    requires
        from + 64 <= m@.len(),
        m@.len() <= usize::MAX,
    ensures
        r == absorbed(h, m@.subrange(from as int, from + 64)),
{
    let ghost block = m@.subrange(from as int, from + 64);
    let mut w: Vec<u32> = Vec::new();
    let mut i: usize = 0;
    while i < 80
        invariant
            i <= 80,
            from + 64 <= m@.len() <= usize::MAX,
            block == m@.subrange(from as int, from + 64),
            w@ == schedule(block, i as int),
            w@.len() == i,
        decreases 80 - i,
    {
        if i < 16 {
            let x = block_word(m, from + i * 4);
            assert(block.subrange(i * 4, i * 4 + 4) =~= m@.subrange(
                from + i * 4,
                from + i * 4 + 4,
            ));
            w.push(x);
        } else {
            let x: u32 = w[i - 3] ^ w[i - 8] ^ w[i - 14] ^ w[i - 16];
            w.push(turn(x, 1));
        }
        i = i + 1;
    }
    let mut s = h;
    let mut k: usize = 0;
    while k < 80
        invariant
            k <= 80,
            w@ == schedule(block, 80),
            w@.len() == 80,
            s == rounds(h, w@, k as int),
        decreases 80 - k,
    {
        let f: u32 = if k < 20 {
            (s.b & s.c) | ((!s.b) & s.d)
        } else if k < 40 {
            s.b ^ s.c ^ s.d
        } else if k < 60 {
            (s.b & s.c) | (s.b & s.d) | (s.c & s.d)
        } else {
            s.b ^ s.c ^ s.d
        };
        let c: u32 = if k < 20 {
            0x5A827999
        } else if k < 40 {
            0x6ED9EBA1
        } else if k < 60 {
            0x8F1BBCDC
        } else {
            0xCA62C1D6
        };
        let t: u32 = turn(s.a, 5).wrapping_add(f).wrapping_add(s.e).wrapping_add(c).wrapping_add(
            w[k],
        );
        s = Digest { a: t, b: s.a, c: turn(s.b, 30), d: s.c, e: s.d };
        k = k + 1;
    }
    Digest {
        a: h.a.wrapping_add(s.a),
        b: h.b.wrapping_add(s.b),
        c: h.c.wrapping_add(s.c),
        d: h.d.wrapping_add(s.d),
        e: h.e.wrapping_add(s.e),
    }
}

/// The SHA-1 hash of a message.
pub fn sha1(data: &[u8]) -> (out: Vec<u8>)
    ensures
        out@ == sha1_hash(data@),
{
    let mut msg: Vec<u8> = Vec::new();
    wire::write_bytes(&mut msg, data);
    assert(msg@ =~= data@);
    msg.push(0x80);
    let zeros: usize = (119 - data.len() % 64) % 64;
    let ghost head = msg@;
    let mut z: usize = 0;
    assert(msg@ =~= head + Seq::new(0, |i: int| 0u8));
    while z < zeros
        invariant
            z <= zeros,
            msg@ == head + Seq::new(z as nat, |i: int| 0u8),
        decreases zeros - z,
    {
        msg.push(0);
        z = z + 1;
        assert(msg@ =~= head + Seq::new(z as nat, |i: int| 0u8));
    }
    let bits: u64 = (data.len() as u64).wrapping_mul(8);
    proof {
        wire::lemma_pow256();
        wire::lemma_be_mod(data@.len() * 8, 8);
        wire::lemma_be_mod(bits as nat, 8);
        wire::lemma_be(data@.len() * 8, 8);
    }
    write_u64(&mut msg, bits);
    assert(msg@ =~= padded(data@));
    let n: usize = msg.len() / 64;
    let mut h = Digest {
        a: 0x67452301,
        b: 0xEFCDAB89,
        c: 0x98BADCFE,
        d: 0x10325476,
        e: 0xC3D2E1F0,
    };
    let mut i: usize = 0;
    while i < n
        invariant
            i <= n,
            n == msg@.len() / 64,
            msg@.len() <= usize::MAX,
            h == digest(msg@, i as int),
        decreases n - i,
    {
        h = absorb(h, &msg, i * 64);
        i = i + 1;
    }
    let mut out: Vec<u8> = Vec::new();
    wire::write_u32(&mut out, h.a);
    assert(out@ =~= wire::w32(h.a as nat));
    wire::write_u32(&mut out, h.b);
    wire::write_u32(&mut out, h.c);
    wire::write_u32(&mut out, h.d);
    wire::write_u32(&mut out, h.e);
    out
}

/// A message is padded to a number of whole blocks.
pub proof fn law_padding_fills_blocks(m: Seq<u8>)
    ensures
        padded(m).len() % 64 == 0,
        padded(m).take(m.len() as int) == m,
{
    wire::lemma_be(m.len() * 8, 8);
    assert(padded(m).take(m.len() as int) =~= m);
}

/// The Base64 digit of `d`, from 0 to 63.
pub open spec fn b64_char(d: int) -> char {
    if d < 26 {
        (65 + d) as char
    } else if d < 52 {
        (71 + d) as char
    } else if d < 62 {
        (d - 4) as char
    } else if d == 62 {
        '+'
    } else {
        '/'
    }
}

/// Three bytes as one number.
pub open spec fn triple(a: u8, b: u8, c: u8) -> int {
    a * 65536 + b * 256 + c
}

/// The digit of weight 64 to the power `k` of a number of three bytes.
pub open spec fn b64_digit(t: int, k: int) -> char {
    if k == 3 {
        b64_char(t / 262144)
    } else if k == 2 {
        b64_char((t / 4096) % 64)
    } else if k == 1 {
        b64_char((t / 64) % 64)
    } else {
        b64_char(t % 64)
    }
}

/// The Base64 text of bytes: four digits for each three bytes; a last group of one or two bytes is
/// filled with `=`.
pub open spec fn base64(s: Seq<u8>) -> Seq<char>
    decreases s.len(),
{
    if s.len() == 0 {
        Seq::empty()
    } else if s.len() == 1 {
        let t = triple(s[0], 0, 0);
        seq![b64_digit(t, 3), b64_digit(t, 2), '=', '=']
    } else if s.len() == 2 {
        let t = triple(s[0], s[1], 0);
        seq![b64_digit(t, 3), b64_digit(t, 2), b64_digit(t, 1), '=']
    } else {
        let t = triple(s[0], s[1], s[2]);
        seq![b64_digit(t, 3), b64_digit(t, 2), b64_digit(t, 1), b64_digit(t, 0)] + base64(s.skip(3))
    }
}

/// Base64 makes four characters of each three bytes, or of the rest.
pub proof fn law_base64_length(s: Seq<u8>)
    ensures
        base64(s).len() == 4 * ((s.len() + 2) / 3),
    decreases s.len(),
{
    if s.len() >= 3 {
        law_base64_length(s.skip(3));
    }
}

fn b64(d: u32) -> (c: char)
    requires
        d < 64,
    ensures
        c == b64_char(d as int),
{
    if d < 26 {
        (65 + d as u8) as char
    } else if d < 52 {
        (71 + d as u8) as char
    } else if d < 62 {
        (d as u8 - 4) as char
    } else if d == 62 {
        '+'
    } else {
        '/'
    }
}

/// The Base64 text of bytes.
pub fn base64_encode(data: &[u8]) -> (out: String)
    ensures
        out@ == base64(data@),
{
    let mut out = String::new();
    let n: usize = data.len();
    let mut i: usize = 0;
    assert(data@.skip(0) =~= data@);
    assert(out@ + base64(data@) =~= base64(data@));
    while i < n
        invariant
            i <= n,
            n == data@.len(),
            out@ + base64(data@.skip(i as int)) == base64(data@),
        decreases n - i,
    {
        let ghost rest = data@.skip(i as int);
        let ghost before = out@;
        let left: usize = n - i;
        let b0: u32 = data[i] as u32;
        let b1: u32 = if left > 1 {
            data[i + 1] as u32
        } else {
            0
        };
        let b2: u32 = if left > 2 {
            data[i + 2] as u32
        } else {
            0
        };
        let t: u32 = b0 * 65536 + b1 * 256 + b2;
        out.push(b64(t / 262144));
        out.push(b64((t / 4096) % 64));
        if left > 1 {
            out.push(b64((t / 64) % 64));
        } else {
            out.push('=');
        }
        if left > 2 {
            out.push(b64(t % 64));
        } else {
            out.push('=');
        }
        let step: usize = if left > 2 {
            3
        } else {
            left
        };
        proof {
            if left > 2 {
                assert(rest.skip(3) =~= data@.skip(i + 3));
            } else {
                assert(data@.skip(i + step) =~= Seq::<u8>::empty());
            }
            assert(out@ + base64(data@.skip(i + step)) =~= before + base64(rest));
        }
        i = i + step;
    }
    proof {
        assert(data@.skip(i as int) =~= Seq::<u8>::empty());
        assert(out@ =~= out@ + base64(data@.skip(i as int)));
    }
    out
}

} // verus!
