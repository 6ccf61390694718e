//! The bridge to browsers: the WebSocket handshake and frames (RFC 6455), the messages of
//! browsers, and the state of the mesh as JSON.

use crate::features::io_words;
use crate::features::io_words::{find_second_word, skip_space};
use crate::features::sha;
use crate::features::sha::{base64_encode, sha1};
use crate::spawn;
use crate::spawn::seconds_since;
use crate::text;
use crate::text::{
    begins_with, contains_text, find_text, from_chars, parse_i64, position_from, push_hex, push_i64,
    push_u64, push_usize, same_text, split_lines, text, to_chars, to_lower, trimmed,
};
use crate::wire;
use crate::wire::{from_lossy, write_bytes, write_u16, write_u64};
use vstd::prelude::*;
use vstd::utf8::*;

verus! {

// ---------------------------------------------------------------------------
// Handshake
// ---------------------------------------------------------------------------

/// The text that RFC 6455 puts behind a client's key.
pub open spec fn handshake_guid() -> Seq<char> {
    "258EAFA5-E914-47DA-95CA-C5AB0DC85B11"@
}

/// The answer to a client's key.
pub open spec fn accept_key(key: Seq<char>) -> Seq<char> {
    sha::base64(sha::sha1_hash(encode_utf8(text::trim(key) + handshake_guid())))
}

/// The answer to a client's key.
pub fn ws_accept_key(client_key: &str) -> (out: String)
    ensures
        out@ == accept_key(client_key@),
{
    let mut combined = trimmed(client_key);
    combined.append("258EAFA5-E914-47DA-95CA-C5AB0DC85B11");
    let hash = sha1(combined.as_str().as_bytes());
    base64_encode(&hash)
}

// ---------------------------------------------------------------------------
// Frames
// ---------------------------------------------------------------------------

/// The length of a payload as a frame gives it: one byte, or a mark and two or eight bytes.
pub open spec fn frame_length(n: nat) -> Seq<u8> {
    if n < 126 {
        wire::w8(n as int)
    } else if n < 65536 {
        wire::w8(126) + wire::w16(n)
    } else {
        wire::w8(127) + wire::w64(n)
    }
}

/// The frame of a text.
pub open spec fn text_frame(s: Seq<char>) -> Seq<u8> {
    wire::w8(0x81) + frame_length(encode_utf8(s).len()) + encode_utf8(s)
}

/// The frame of a text.
pub fn ws_encode_text(payload: &str) -> (frame: Vec<u8>)
    ensures
        frame@ == text_frame(payload@),
{
    let data = payload.as_bytes();
    let mut frame: Vec<u8> = Vec::new();
    frame.push(0x81);
    assert(frame@ =~= wire::w8(0x81));
    let ghost head = frame@;
    if data.len() < 126 {
        frame.push(data.len() as u8);
    } else if data.len() < 65536 {
        frame.push(126);
        write_u16(&mut frame, data.len() as u16);
    } else {
        frame.push(127);
        write_u64(&mut frame, data.len() as u64);
    }
    assert(frame@ =~= head + frame_length(data@.len()));
    write_bytes(&mut frame, data);
    frame
}

/// Where the payload length of a frame ends, with any key before the payload, and how long the
/// payload is; `None` if the bytes do not reach that far.
pub open spec fn frame_head(d: Seq<u8>) -> Option<(int, int)> {
    if d.len() < 2 {
        None
    } else {
        let n = d[1] as int % 128;
        let (at, size) = if n == 126 {
            (4int, wire::be_nat(d.subrange(2, 4)) as int)
        } else if n == 127 {
            (10int, wire::be_nat(d.subrange(2, 10)) as int)
        } else {
            (2int, n)
        };
        let start = if d[1] >= 128 {
            at + 4
        } else {
            at
        };
        if d.len() < start {
            None
        } else {
            Some((start, size))
        }
    }
}

/// Bytes with a key of four bytes laid over them again and again.
pub open spec fn masked(p: Seq<u8>, key: Seq<u8>) -> Seq<u8> {
    Seq::new(p.len(), |i: int| p[i] ^ key[i % 4])
}

/// The payload and the size of the frame at the start of the bytes, if all of it is there.
pub open spec fn first_frame(d: Seq<u8>) -> Option<(Seq<u8>, int)> {
    match frame_head(d) {
        Some((start, size)) => if d.len() < start + size {
            None
        } else {
            let p = d.subrange(start, start + size);
            Some((
                if d[1] >= 128 {
                    masked(p, d.subrange(start - 4, start))
                } else {
                    p
                },
                start + size,
            ))
        },
        None => None,
    }
}

fn number_from(d: &[u8], from: usize, k: usize) -> (n: u64)
    requires
        from + k <= d@.len(),
        k <= 8,
        d@.len() <= usize::MAX,
    ensures
        n == wire::be_nat(d@.subrange(from as int, from + k)),
{
    let ghost b = d@.subrange(from as int, from + k);
    let mut n: u64 = 0;
    let mut j: usize = 0;
    while j < k
        invariant
            j <= k <= 8,
            from + k <= d@.len() <= usize::MAX,
            b == d@.subrange(from as int, from + k),
            n == wire::be_nat(b.take(j as int)),
        decreases k - j,
    {
        proof {
            wire::lemma_be_nat_bound(b.take(j as int));
            wire::lemma_pow256();
            wire::lemma_pow256_mono(j as nat, 7);
            reveal_with_fuel(wire::pow256, 9);
            assert(b.take(j + 1).drop_last() =~= b.take(j as int));
        }
        n = n * 256 + d[from + j] as u64;
        j = j + 1;
    }
    assert(b.take(k as int) =~= b);
    n
}

/// The text and the size of the frame at the start of the bytes; `None` if it is not all there.
pub fn ws_decode_frame(data: &[u8]) -> (r: Option<(String, usize)>)
    ensures
        match first_frame(data@) {
            Some((p, n)) => r matches Some(x) && x.0@ == wire::text_of(p) && x.1 == n && 2 <= n
                <= data@.len(),
            None => r.is_none(),
        },
{
    let n: usize = data.len();
    if n < 2 {
        return None;
    }
    let is_masked: bool = data[1] >= 128;
    let mut size: u64 = (data[1] % 128) as u64;
    let mut start: usize = 2;
    if size == 126 {
        if n < 4 {
            return None;
        }
        size = number_from(data, 2, 2);
        start = 4;
    } else if size == 127 {
        if n < 10 {
            return None;
        }
        size = number_from(data, 2, 8);
        start = 10;
    }
    if is_masked {
        if n < start + 4 {
            return None;
        }
        start = start + 4;
    }
    if ((n - start) as u64) < size {
        return None;
    }
    let end: usize = start + size as usize;
    let ghost p = data@.subrange(start as int, end as int);
    let ghost (want, _) = first_frame(data@)->0;
    let mut payload: Vec<u8> = Vec::new();
    let mut i: usize = start;
    while i < end
        invariant
            start <= i <= end <= data@.len(),
            n == data@.len(),
            is_masked ==> start >= 4,
            p == data@.subrange(start as int, end as int),
            want == (if is_masked {
                masked(p, data@.subrange(start - 4, start as int))
            } else {
                p
            }),
            payload@ == want.take(i - start),
        decreases end - i,
    {
        let b: u8 = if is_masked {
            data[i] ^ data[start - 4 + (i - start) % 4]
        } else {
            data[i]
        };
        payload.push(b);
        i = i + 1;
        assert(payload@ =~= want.take(i - start));
    }
    assert(payload@ =~= want);
    Some((from_lossy(&payload), end))
}

/// The frame that a client sends of a payload: like that of a server, with a key over it.
pub open spec fn client_frame(p: Seq<u8>, key: Seq<u8>) -> Seq<u8> {
    if p.len() < 126 {
        wire::w8(0x81) + wire::w8(128 + p.len() as int) + key + masked(p, key)
    } else if p.len() < 65536 {
        wire::w8(0x81) + wire::w8(254) + wire::w16(p.len()) + key + masked(p, key)
    } else {
        wire::w8(0x81) + wire::w8(255) + wire::w64(p.len()) + key + masked(p, key)
    }
}

proof fn lemma_mask_twice(p: Seq<u8>, key: Seq<u8>)
    ensures
        masked(masked(p, key), key) == p,
{
    assert forall|i: int| 0 <= i < p.len() implies #[trigger] masked(masked(p, key), key)[i]
        == p[i] by {
        let (a, b) = (p[i], key[i % 4]);
        assert((a ^ b) ^ b == a) by (bit_vector);
    }
    assert(masked(masked(p, key), key) =~= p);
}

/// Reading the frame of a text gives the text back, whatever follows the frame.
#[verifier::spinoff_prover]
#[verifier::rlimit(40)]
pub proof fn law_frame_roundtrip(s: Seq<char>, t: Seq<u8>)
    requires
        encode_utf8(s).len() <= u64::MAX,
    ensures
        first_frame(text_frame(s) + t) == Some((encode_utf8(s), text_frame(s).len() as int)),
        wire::text_of(encode_utf8(s)) == s,
{
    let b = encode_utf8(s);
    let d = text_frame(s) + t;
    encode_utf8_valid_utf8(s);
    encode_utf8_decode_utf8(s);
    wire::lemma_pow256();
    wire::lemma_be(b.len(), 2);
    wire::lemma_be(b.len(), 8);
    if b.len() < 126 {
        assert(d.subrange(2, 2 + b.len() as int) =~= b);
    } else if b.len() < 65536 {
        assert(d.subrange(2, 4) =~= wire::w16(b.len()));
        assert(d.subrange(4, 4 + b.len() as int) =~= b);
    } else {
        assert(d.subrange(2, 10) =~= wire::w64(b.len()));
        assert(d.subrange(10, 10 + b.len() as int) =~= b);
    }
}

/// Reading a client's frame lifts the key off: it gives the payload back, whatever follows.
#[verifier::spinoff_prover]
#[verifier::rlimit(40)]
pub proof fn law_masked_frame_roundtrip(p: Seq<u8>, key: Seq<u8>, t: Seq<u8>)
    requires
        p.len() <= u64::MAX,
        key.len() == 4,
    ensures
        first_frame(client_frame(p, key) + t) == Some((p, client_frame(p, key).len() as int)),
{
    let d = client_frame(p, key) + t;
    let n = p.len() as int;
    wire::lemma_pow256();
    wire::lemma_be(p.len(), 2);
    wire::lemma_be(p.len(), 8);
    lemma_mask_twice(p, key);
    if n < 126 {
        assert(d.subrange(2, 6) =~= key);
        assert(d.subrange(6, 6 + n) =~= masked(p, key));
    } else if n < 65536 {
        assert(d.subrange(2, 4) =~= wire::w16(p.len()));
        assert(d.subrange(4, 8) =~= key);
        assert(d.subrange(8, 8 + n) =~= masked(p, key));
    } else {
        assert(d.subrange(2, 10) =~= wire::w64(p.len()));
        assert(d.subrange(10, 14) =~= key);
        assert(d.subrange(14, 14 + n) =~= masked(p, key));
    }
}

proof fn lemma_frame_extended(d: Seq<u8>, t: Seq<u8>)
    requires
        first_frame(d).is_some(),
    ensures
        first_frame(d + t) == first_frame(d),
        first_frame(d) matches Some((_, n)) ==> n <= d.len(),
{
    let e = d + t;
    let (start, size) = frame_head(d)->0;
    assert(e[1] == d[1]);
    if d[1] as int % 128 == 126 {
        assert(e.subrange(2, 4) =~= d.subrange(2, 4));
    } else if d[1] as int % 128 == 127 {
        assert(e.subrange(2, 10) =~= d.subrange(2, 10));
    }
    assert(frame_head(e) == frame_head(d));
    assert(e.subrange(start, start + size) =~= d.subrange(start, start + size));
    if d[1] >= 128 {
        assert(e.subrange(start - 4, start) =~= d.subrange(start - 4, start));
    }
}

/// The frame of a text, cut short anywhere, is no frame yet.
pub proof fn law_frame_cut_short(s: Seq<char>, n: int)
    requires
        encode_utf8(s).len() <= u64::MAX,
        0 <= n < text_frame(s).len(),
    ensures
        first_frame(text_frame(s).take(n)).is_none(),
{
    let f = text_frame(s);
    if first_frame(f.take(n)).is_some() {
        lemma_frame_extended(f.take(n), f.skip(n));
        assert(f.take(n) + f.skip(n) =~= f);
        assert(f + Seq::<u8>::empty() =~= f);
        law_frame_roundtrip(s, Seq::empty());
    }
}

/// A client's frame, cut short anywhere, is no frame yet.
pub proof fn law_masked_frame_cut_short(p: Seq<u8>, key: Seq<u8>, n: int)
    requires
        p.len() <= u64::MAX,
        key.len() == 4,
        0 <= n < client_frame(p, key).len(),
    ensures
        first_frame(client_frame(p, key).take(n)).is_none(),
{
    let f = client_frame(p, key);
    if first_frame(f.take(n)).is_some() {
        lemma_frame_extended(f.take(n), f.skip(n));
        assert(f.take(n) + f.skip(n) =~= f);
        assert(f + Seq::<u8>::empty() =~= f);
        law_masked_frame_roundtrip(p, key, Seq::empty());
    }
}

/// The frame that answers a ping with these bytes.
pub open spec fn pong_frame(b: Seq<u8>) -> Seq<u8> {
    wire::w8(0x8A) + wire::w8(b.len() as int % 256) + b
}

/// The frame that answers a ping.
pub fn ws_encode_pong(ping_data: &[u8]) -> (frame: Vec<u8>)
    ensures
        frame@ == pong_frame(ping_data@),
{
    let mut frame: Vec<u8> = Vec::new();
    frame.push(0x8A);
    frame.push((ping_data.len() % 256) as u8);
    assert(frame@ =~= wire::w8(0x8A) + wire::w8(ping_data@.len() as int % 256));
    write_bytes(&mut frame, ping_data);
    frame
}

// ---------------------------------------------------------------------------
// JSON
// ---------------------------------------------------------------------------

/// A key in quotes.
pub open spec fn quoted(key: Seq<char>) -> Seq<char> {
    "\""@ + key + "\""@
}

/// Where the value of a key starts: behind the first occurrence of the key in quotes, a colon and
/// white space.
pub open spec fn value_at(json: Seq<char>, key: Seq<char>) -> Option<int> {
    match text::find_from(json, quoted(key), 0) {
        Some(p) => {
            let a = io_words::past_space(json, (p + quoted(key).len()) as int);
            if a < json.len() && json[a] == ':' {
                Some(io_words::past_space(json, a + 1))
            } else {
                None
            }
        },
        None => None,
    }
}

/// The text of a key: what stands between quotes.
pub open spec fn json_string(json: Seq<char>, key: Seq<char>) -> Option<Seq<char>> {
    match value_at(json, key) {
        Some(a) => if a < json.len() && json[a] == '"' && text::index_from(json, '"', a + 1)
            < json.len() {
            Some(json.subrange(a + 1, text::index_from(json, '"', a + 1)))
        } else {
            None
        },
        None => None,
    }
}

/// The position after the digits and minus signs from `i` on.
pub open spec fn past_digits(s: Seq<char>, i: int) -> int
    decreases s.len() - i,
{
    if i < s.len() && (text::is_digit(s[i]) || s[i] == '-') {
        past_digits(s, i + 1)
    } else {
        i
    }
}

/// The number of a key.
pub open spec fn json_number(json: Seq<char>, key: Seq<char>) -> Option<int> {
    match value_at(json, key) {
        Some(a) => text::in_range(
            text::parse_int(json.subrange(a, past_digits(json, a))),
            i64::MIN as int,
            i64::MAX as int,
        ),
        None => None,
    }
}

fn find_value(v: &[char], key: &str) -> (r: Option<usize>)
    ensures
        match r {
            Some(a) => value_at(v@, key@) == Some(a as int) && a <= v@.len(),
            None => value_at(v@, key@).is_none(),
        },
{
    let mut pattern = text("\"");
    pattern.append(key);
    pattern.append("\"");
    let p = to_chars(pattern.as_str());
    let n: usize = v.len();
    match find_text(v, &p, 0) {
        Some(k) => {
            assert(k + p@.len() <= n);
            let a = skip_space(v, k + p.len());
            if a < v.len() && v[a] == ':' {
                Some(skip_space(v, a + 1))
            } else {
                None
            }
        },
        None => None,
    }
}

/// The text of a key in JSON.
pub fn extract_json_string(json: &str, key: &str) -> (r: Option<String>)
    ensures
        text::opt_text(r) == json_string(json@, key@),
{
    let v = to_chars(json);
    match find_value(&v, key) {
        Some(a) => {
            if a < v.len() && v[a] == '"' {
                let e = position_from(&v, '"', a + 1);
                if e < v.len() {
                    return Some(from_chars(&v, a + 1, e));
                }
            }
            None
        },
        None => None,
    }
}

/// The number of a key in JSON.
pub fn extract_json_number(json: &str, key: &str) -> (r: Option<i64>)
    ensures
        match r {
            Some(n) => json_number(json@, key@) == Some(n as int),
            None => json_number(json@, key@).is_none(),
        },
{
    let v = to_chars(json);
    match find_value(&v, key) {
        Some(a) => {
            let mut e: usize = a;
            while e < v.len() && (('0' <= v[e] && v[e] <= '9') || v[e] == '-')
                invariant
                    a <= e <= v@.len(),
                    past_digits(v@, e as int) == past_digits(v@, a as int),
                decreases v@.len() - e,
            {
                e = e + 1;
            }
            let digits = from_chars(&v, a, e);
            parse_i64(digits.as_str())
        },
        None => None,
    }
}

// ---------------------------------------------------------------------------
// Clients
// ---------------------------------------------------------------------------

/// A connected browser. Times are milliseconds of the bridge's clock.
#[derive(Debug)]
pub struct WsClient {
    pub id: String,
    pub connected_at: u64,
    pub last_heartbeat: u64,
    pub fitness: i64,
}

/// The mathematical form of a browser.
#[verifier::ext_equal]
pub struct ClientV {
    pub id: Seq<char>,
    pub connected_at: u64,
    pub last_heartbeat: u64,
    pub fitness: i64,
}

impl View for WsClient {
    type V = ClientV;

    open spec fn view(&self) -> ClientV {
        ClientV {
            id: self.id@,
            connected_at: self.connected_at,
            last_heartbeat: self.last_heartbeat,
            fitness: self.fitness,
        }
    }
}

/// The bridge: its browsers, of which no two have the same identity, and what it has passed on.
#[derive(Debug)]
pub struct WsBridgeState {
    pub clients: Vec<WsClient>,
    pub messages_relayed: u64,
    pub port: u16,
}

/// The mathematical form of the bridge.
#[verifier::ext_equal]
pub struct BridgeV {
    pub clients: Seq<ClientV>,
    pub messages_relayed: u64,
    pub port: u16,
}

/// The mathematical form of a row of browsers.
pub open spec fn client_views(s: Seq<WsClient>) -> Seq<ClientV> {
    Seq::new(s.len(), |i: int| s[i]@)
}

impl View for WsBridgeState {
    type V = BridgeV;

    open spec fn view(&self) -> BridgeV {
        BridgeV {
            clients: client_views(self.clients@),
            messages_relayed: self.messages_relayed,
            port: self.port,
        }
    }
}

/// The first position from `i` on of the browser with this identity, or the number of browsers.
pub open spec fn client_from(s: Seq<ClientV>, id: Seq<char>, i: int) -> int
    decreases s.len() - i,
{
    if i >= s.len() {
        s.len() as int
    } else if s[i].id == id {
        i
    } else {
        client_from(s, id, i + 1)
    }
}

/// The browsers with one more, or with it in the place of the one with the same identity.
pub open spec fn put_client(s: Seq<ClientV>, c: ClientV) -> Seq<ClientV> {
    let i = client_from(s, c.id, 0);
    if i < s.len() {
        s.update(i, c)
    } else {
        s.push(c)
    }
}

/// The browsers without one.
pub open spec fn without_client(s: Seq<ClientV>, id: Seq<char>) -> Seq<ClientV> {
    let i = client_from(s, id, 0);
    if i < s.len() {
        s.remove(i)
    } else {
        s
    }
}

/// The line of the bridge.
pub open spec fn bridge_text(b: BridgeV) -> Seq<char> {
    "ws-bridge: port="@ + text::dec(b.port as nat) + " browsers="@ + text::dec(b.clients.len()) + " relayed="@
        + text::dec(b.messages_relayed as nat) + "\n"@
}

/// The lines of browsers.
pub open spec fn client_lines(s: Seq<ClientV>, now: u64) -> Seq<char>
    decreases s.len(),
{
    if s.len() == 0 {
        Seq::empty()
    } else {
        client_lines(s.drop_last(), now) + ("  "@ + s.last().id + " fitness="@ + text::dec_int(
            s.last().fitness as int,
        ) + " connected="@ + text::dec(spawn::seconds_between(s.last().connected_at, now) as nat) + "s\n"@)
    }
}

/// The list of browsers.
pub open spec fn clients_text(b: BridgeV, now: u64) -> Seq<char> {
    if b.clients.len() == 0 {
        "  (no browsers connected)\n"@
    } else {
        client_lines(b.clients, now)
    }
}

impl WsBridgeState {
    /// A bridge without browsers.
    pub fn new(port: u16) -> (r: Self)
        ensures
            r@ == (BridgeV { clients: Seq::empty(), messages_relayed: 0, port }),
    {
        let r = WsBridgeState { clients: Vec::new(), messages_relayed: 0, port };
        assert(r@.clients =~= Seq::<ClientV>::empty());
        r
    }

    fn client_slot(&self, id: &str) -> (r: usize)
        ensures
            r == client_from(self@.clients, id@, 0),
            r <= self.clients@.len(),
    {
        let mut i: usize = 0;
        while i < self.clients.len()
            invariant
                i <= self.clients@.len(),
                client_from(self@.clients, id@, i as int) == client_from(self@.clients, id@, 0),
            decreases self.clients@.len() - i,
        {
            assert(self@.clients[i as int] == self.clients@[i as int]@);
            if same_text(self.clients[i].id.as_str(), id) {
                return i;
            }
            i = i + 1;
        }
        i
    }

    /// Takes in a browser that connected at `now`.
    pub fn connect(&mut self, id: &str, now: u64)
        ensures
            final(self)@ == (BridgeV {
                clients: put_client(
                    old(self)@.clients,
                    ClientV { id: id@, connected_at: now, last_heartbeat: now, fitness: 0 },
                ),
                ..old(self)@
            }),
    {
        let c = WsClient { id: text(id), connected_at: now, last_heartbeat: now, fitness: 0 };
        let ghost cv = c@;
        let i = self.client_slot(id);
        if i < self.clients.len() {
            self.clients.set(i, c);
        } else {
            self.clients.push(c);
        }
        assert(self@.clients =~= put_client(old(self)@.clients, cv));
    }

    /// Forgets a browser.
    pub fn disconnect(&mut self, id: &str)
        ensures
            final(self)@ == (BridgeV {
                clients: without_client(old(self)@.clients, id@),
                ..old(self)@
            }),
    {
        let i = self.client_slot(id);
        if i < self.clients.len() {
            let _ = self.clients.remove(i);
            assert(self@.clients =~= old(self)@.clients.remove(i as int));
        }
    }

    /// Counts a message that was passed on.
    pub fn relayed(&mut self)
        ensures
            final(self)@ == (BridgeV {
                messages_relayed: old(self)@.messages_relayed.wrapping_add(1),
                ..old(self)@
            }),
    {
        self.messages_relayed = self.messages_relayed.wrapping_add(1);
    }

    /// The line of the bridge.
    pub fn format_status(&self) -> (out: String)
        ensures
            out@ == bridge_text(self@),
    {
        let mut out = text("ws-bridge: port=");
        push_u64(&mut out, self.port as u64);
        out.append(" browsers=");
        push_usize(&mut out, self.clients.len());
        out.append(" relayed=");
        push_u64(&mut out, self.messages_relayed);
        out.append("\n");
        out
    }

    /// The list of browsers, at `now`.
    pub fn format_clients(&self, now: u64) -> (out: String)
        ensures
            out@ == clients_text(self@, now),
    {
        if self.clients.len() == 0 {
            return text("  (no browsers connected)\n");
        }
        let mut out = String::new();
        let mut i: usize = 0;
        assert(out@ =~= client_lines(self@.clients.take(0), now));
        while i < self.clients.len()
            invariant
                i <= self.clients@.len(),
                out@ == client_lines(self@.clients.take(i as int), now),
            decreases self.clients@.len() - i,
        {
            assert(self@.clients.take(i + 1).drop_last() =~= self@.clients.take(i as int));
            let c = &self.clients[i];
            let mut row = text("  ");
            row.append(c.id.as_str());
            row.append(" fitness=");
            push_i64(&mut row, c.fitness);
            row.append(" connected=");
            push_u64(&mut row, seconds_since(c.connected_at, now));
            row.append("s\n");
            out.append(row.as_str());
            i = i + 1;
        }
        assert(self@.clients.take(i as int) =~= self@.clients);
        out
    }
}

// ---------------------------------------------------------------------------
// Messages of browsers
// ---------------------------------------------------------------------------

/// What the bridge tells the machine.
#[derive(Debug)]
pub enum WsEvent {
    /// A browser submitted a goal.
    GoalSubmit { code: String, priority: i64 },
    /// A browser connected.
    ClientConnected { id: String },
    /// A browser disconnected.
    ClientDisconnected { id: String },
    /// A browser is alive.
    Heartbeat { id: String, fitness: i64 },
}

/// The mathematical form of an event.
pub enum EventV {
    GoalSubmit { code: Seq<char>, priority: i64 },
    ClientConnected { id: Seq<char> },
    ClientDisconnected { id: Seq<char> },
    Heartbeat { id: Seq<char>, fitness: i64 },
}

impl View for WsEvent {
    type V = EventV;

    open spec fn view(&self) -> EventV {
        match *self {
            WsEvent::GoalSubmit { code, priority } => EventV::GoalSubmit { code: code@, priority },
            WsEvent::ClientConnected { id } => EventV::ClientConnected { id: id@ },
            WsEvent::ClientDisconnected { id } => EventV::ClientDisconnected { id: id@ },
            WsEvent::Heartbeat { id, fitness } => EventV::Heartbeat { id: id@, fitness },
        }
    }
}

/// The text of a key, or nothing.
pub open spec fn string_or_empty(json: Seq<char>, key: Seq<char>) -> Seq<char> {
    match json_string(json, key) {
        Some(s) => s,
        None => Seq::empty(),
    }
}

/// The number of a key, or a given one.
pub open spec fn number_or(json: Seq<char>, key: Seq<char>, otherwise: int) -> int {
    match json_number(json, key) {
        Some(n) => n,
        None => otherwise,
    }
}

/// The event that a browser's message stands for.
pub open spec fn message_event(json: Seq<char>, id: Seq<char>) -> Option<EventV> {
    let kind = string_or_empty(json, "type"@);
    if kind == "heartbeat"@ {
        Some(EventV::Heartbeat { id, fitness: number_or(json, "fitness"@, 0) as i64 })
    } else if kind == "goal_submit"@ {
        Some(
            EventV::GoalSubmit {
                code: string_or_empty(json, "code"@),
                priority: number_or(json, "priority"@, 5) as i64,
            },
        )
    } else {
        None
    }
}

/// The bridge after a browser's message: a heartbeat renews the browser, and every message that
/// stands for an event is counted.
pub open spec fn heard(b: BridgeV, event: Option<EventV>, now: u64) -> BridgeV {
    match event {
        Some(e) => {
            let clients = match e {
                EventV::Heartbeat { id, fitness } => {
                    let i = client_from(b.clients, id, 0);
                    if i < b.clients.len() {
                        b.clients.update(
                            i,
                            ClientV { last_heartbeat: now, fitness, ..b.clients[i] },
                        )
                    } else {
                        b.clients
                    }
                },
                _ => b.clients,
            };
            BridgeV { clients, messages_relayed: b.messages_relayed.wrapping_add(1), ..b }
        },
        None => b,
    }
}

fn string_of(json: &str, key: &str) -> (s: String)
    ensures
        s@ == string_or_empty(json@, key@),
{
    match extract_json_string(json, key) {
        Some(s) => s,
        None => {
            let s = String::new();
            assert(s@ =~= Seq::<char>::empty());
            s
        },
    }
}

fn number_of(json: &str, key: &str, otherwise: i64) -> (n: i64)
    ensures
        n == number_or(json@, key@, otherwise as int),
{
    match extract_json_number(json, key) {
        Some(n) => n,
        None => otherwise,
    }
}

/// Takes in a browser's message at `now`. Returns the event that it stands for.
pub fn handle_browser_message(json: &str, client_id: &str, state: &mut WsBridgeState, now: u64) -> (
    r: Option<WsEvent>)
    ensures
        match message_event(json@, client_id@) {
            Some(e) => r matches Some(x) && x@ == e,
            None => r.is_none(),
        },
        final(state)@ == heard(old(state)@, message_event(json@, client_id@), now),
{
    let kind = string_of(json, "type");
    if same_text(kind.as_str(), "heartbeat") {
        let fitness = number_of(json, "fitness", 0);
        let i = state.client_slot(client_id);
        if i < state.clients.len() {
            assert(state@.clients[i as int] == state.clients@[i as int]@);
            state.clients[i].last_heartbeat = now;
            state.clients[i].fitness = fitness;
        }
        state.messages_relayed = state.messages_relayed.wrapping_add(1);
        assert(state@.clients =~= heard(
            old(state)@,
            message_event(json@, client_id@),
            now,
        ).clients);
        Some(WsEvent::Heartbeat { id: text(client_id), fitness })
    } else if same_text(kind.as_str(), "goal_submit") {
        let code = string_of(json, "code");
        let priority = number_of(json, "priority", 5);
        state.messages_relayed = state.messages_relayed.wrapping_add(1);
        Some(WsEvent::GoalSubmit { code, priority })
    } else {
        None
    }
}

/// The name of a browser, from the nanoseconds of the clock.
pub fn client_name(nanos: u32) -> (out: String)
    ensures
        out@ == "browser-"@ + text::hex(wire::w16((nanos % 65536) as nat)),
{
    let mut b: Vec<u8> = Vec::new();
    write_u16(&mut b, (nanos % 65536) as u16);
    assert(b@ =~= wire::w16((nanos % 65536) as nat));
    let mut out = text("browser-");
    push_hex(&mut out, &b);
    out
}

// ---------------------------------------------------------------------------
// A browser's connection
// ---------------------------------------------------------------------------

/// The payloads of the whole frames at the start of the bytes, and the bytes behind them.
pub open spec fn frames(d: Seq<u8>) -> (Seq<Seq<char>>, Seq<u8>)
    decreases d.len(),
{
    match first_frame(d) {
        Some((p, n)) => if 2 <= n <= d.len() {
            let (rest, tail) = frames(d.skip(n));
            (seq![wire::text_of(p)] + rest, tail)
        } else {
            (Seq::empty(), d)
        },
        None => (Seq::empty(), d),
    }
}

/// True of bytes that end a connection: a close frame stands at their start.
pub open spec fn closes(chunk: Seq<u8>) -> bool {
    chunk.len() > 0 && chunk[0] % 16 == 8
}

/// True of bytes that start with a ping.
pub open spec fn pings(buf: Seq<u8>) -> bool {
    buf.len() > 0 && buf[0] % 16 == 9
}

/// What messages of a browser come to: the events in order, and the bridge behind them.
pub open spec fn all_heard(b: BridgeV, ms: Seq<Seq<char>>, id: Seq<char>, now: u64) -> (
    Seq<EventV>,
    BridgeV,
)
    decreases ms.len(),
{
    if ms.len() == 0 {
        (Seq::empty(), b)
    } else {
        let (es, c) = all_heard(b, ms.drop_last(), id, now);
        let e = message_event(ms.last(), id);
        (
            match e {
                Some(x) => es.push(x),
                None => es,
            },
            heard(c, e, now),
        )
    }
}

/// What the bytes that arrived in a turn come to: the events in order, and the bridge behind them.
pub open spec fn turn_messages(
    buf: Seq<u8>,
    chunk: Seq<u8>,
    id: Seq<char>,
    b: BridgeV,
    now: u64,
) -> (Seq<EventV>, BridgeV) {
    if chunk.len() == 0 || closes(chunk) {
        (Seq::empty(), b)
    } else {
        all_heard(b, frames(buf + chunk).0, id, now)
    }
}

/// The bytes that do not make a frame yet after a turn.
pub open spec fn turn_rest(buf: Seq<u8>, chunk: Seq<u8>) -> Seq<u8> {
    if chunk.len() == 0 {
        buf
    } else {
        frames(buf + chunk).1
    }
}

pub open spec fn event_views(s: Seq<WsEvent>) -> Seq<EventV> {
    Seq::new(s.len(), |i: int| s[i]@)
}

fn hear_all(v: &[String], id: &str, bridge: &mut WsBridgeState, now: u64) -> (events: Vec<WsEvent>)
    ensures
        event_views(events@) == all_heard(old(bridge)@, text::texts(v@), id@, now).0,
        final(bridge)@ == all_heard(old(bridge)@, text::texts(v@), id@, now).1,
{
    let mut events: Vec<WsEvent> = Vec::new();
    let ghost ms = text::texts(v@);
    let mut i: usize = 0;
    assert(event_views(events@) =~= all_heard(old(bridge)@, ms.take(0), id@, now).0);
    while i < v.len()
        invariant
            i <= v@.len(),
            ms == text::texts(v@),
            event_views(events@) == all_heard(old(bridge)@, ms.take(i as int), id@, now).0,
            bridge@ == all_heard(old(bridge)@, ms.take(i as int), id@, now).1,
        decreases v@.len() - i,
    {
        let ghost before = event_views(events@);
        assert(ms.take(i + 1).drop_last() =~= ms.take(i as int));
        assert(ms.take(i + 1).last() == v@[i as int]@);
        match handle_browser_message(v[i].as_str(), id, bridge, now) {
            Some(e) => {
                let ghost x = e@;
                events.push(e);
                assert(event_views(events@) =~= before.push(x));
            },
            None => {},
        }
        i = i + 1;
    }
    assert(ms.take(i as int) =~= ms);
    events
}

/// What is kept of a browser's connection: bytes that do not make a frame yet, and when the state
/// of the mesh was last sent.
pub struct WsSession {
    pub read_buf: Vec<u8>,
    pub last_push: u64,
}

/// What is to be done after a turn with a browser.
pub struct Turn {
    /// The connection is over.
    pub close: bool,
    /// What the browser's messages stand for.
    pub events: Vec<WsEvent>,
    /// The answer to a ping, if there was one.
    pub pong: Vec<u8>,
    /// Whether the state of the mesh is to be sent.
    pub push: bool,
}

/// What to do with bytes that arrived.
enum Received {
    /// The browser closes the connection.
    Close,
    /// These messages arrived.
    Messages(Vec<String>),
}

impl WsSession {
    /// A connection that was made at `now`.
    pub fn new(now: u64) -> (r: Self)
        ensures
            r.read_buf@ == Seq::<u8>::empty(),
            r.last_push == now,
    {
        WsSession { read_buf: Vec::new(), last_push: now }
    }

    /// Takes in bytes. A close frame at their start ends the connection; otherwise the messages
    /// that are complete are handed out.
    fn receive(&mut self, chunk: &[u8]) -> (r: Received)
        requires
            chunk@.len() > 0,
        ensures
            final(self).last_push == old(self).last_push,
            if chunk@[0] % 16 == 8 {
                r is Close && final(self).read_buf@ == old(self).read_buf@
            } else {
                let (ms, tail) = frames(old(self).read_buf@ + chunk@);
                (r matches Received::Messages(v) && text::texts(v@) == ms) && final(self).read_buf@ == tail
            },
    {
        if chunk[0] % 16 == 8 {
            return Received::Close;
        }
        write_bytes(&mut self.read_buf, chunk);
        let ghost all = self.read_buf@;
        let mut v: Vec<String> = Vec::new();
        let mut done: bool = false;
        assert(text::texts(v@) + frames(all).0 =~= frames(all).0);
        while !done
            invariant
                self.last_push == old(self).last_push,
                text::texts(v@) + frames(self.read_buf@).0 == frames(all).0,
                frames(self.read_buf@).1 == frames(all).1,
                done ==> first_frame(self.read_buf@).is_none(),
            decreases
                self.read_buf@.len() + (if done {
                    0int
                } else {
                    1
                }),
        {
            let ghost before = self.read_buf@;
            match ws_decode_frame(&self.read_buf) {
                Some((s, n)) => {
                    let ghost kept = text::texts(v@);
                    v.push(s);
                    let rest = io_words::bytes_between(&self.read_buf, n, self.read_buf.len());
                    self.read_buf = rest;
                    proof {
                        assert(self.read_buf@ =~= before.skip(n as int));
                        assert(text::texts(v@) =~= kept.push(s@));
                        assert(text::texts(v@) + frames(self.read_buf@).0 =~= kept + frames(before).0);
                    }
                },
                None => {
                    done = true;
                },
            }
        }
        assert(text::texts(v@) =~= text::texts(v@) + frames(self.read_buf@).0);
        Received::Messages(v)
    }

    /// Whether a ping waits in the buffer. It is dropped with everything behind it, and the caller
    /// answers it.
    fn take_ping(&mut self) -> (b: bool)
        ensures
            b == (old(self).read_buf@.len() > 0 && old(self).read_buf@[0] % 16 == 9),
            final(self).read_buf@ == (if b {
                Seq::<u8>::empty()
            } else {
                old(self).read_buf@
            }),
            final(self).last_push == old(self).last_push,
    {
        if self.read_buf.len() > 0 && self.read_buf[0] % 16 == 9 {
            self.read_buf.clear();
            true
        } else {
            false
        }
    }

    /// One turn with the browser `id`: takes in the bytes that arrived, if any, and says what is to
    /// be done. The state of the mesh is due every two seconds.
    pub fn turn(&mut self, chunk: &[u8], id: &str, bridge: &mut WsBridgeState, now: u64) -> (r: Turn)
        ensures
            r.close == closes(chunk@),
            event_views(r.events@) == turn_messages(old(self).read_buf@, chunk@, id@, old(bridge)@, now).0,
            final(bridge)@ == turn_messages(old(self).read_buf@, chunk@, id@, old(bridge)@, now).1,
            r.pong@ == (if pings(turn_rest(old(self).read_buf@, chunk@)) && !r.close {
                pong_frame(Seq::empty())
            } else {
                Seq::empty()
            }),
            r.push == (!r.close && now >= old(self).last_push + 2000),
            final(self).read_buf@ == (if r.close {
                old(self).read_buf@
            } else if pings(turn_rest(old(self).read_buf@, chunk@)) {
                Seq::empty()
            } else {
                turn_rest(old(self).read_buf@, chunk@)
            }),
            final(self).last_push == old(self).last_push,
    {
        let mut events: Vec<WsEvent> = Vec::new();
        let mut pong: Vec<u8> = Vec::new();
        assert(event_views(events@) =~= Seq::<EventV>::empty());
        assert(pong@ =~= Seq::<u8>::empty());
        if chunk.len() > 0 {
            match self.receive(chunk) {
                Received::Close => return Turn { close: true, events, pong, push: false },
                Received::Messages(v) => {
                    events = hear_all(&v, id, bridge, now);
                },
            }
        }
        if self.take_ping() {
            let nothing: Vec<u8> = Vec::new();
            assert(nothing@ =~= Seq::<u8>::empty());
            pong = ws_encode_pong(&nothing);
        }
        let push = now >= self.last_push && now - self.last_push >= 2000;
        Turn { close: false, events, pong, push }
    }

    /// The state of the mesh was sent at `now`.
    pub fn pushed(&mut self, now: u64)
        ensures
            final(self).last_push == now,
            final(self).read_buf@ == old(self).read_buf@,
    {
        self.last_push = now;
    }
}

// ---------------------------------------------------------------------------
// HTTP requests
// ---------------------------------------------------------------------------

/// True if the bytes hold a blank line at or behind position `i`.
pub open spec fn has_blank_line(d: Seq<u8>, i: int) -> bool
    decreases d.len() - i,
{
    if i + 4 > d.len() {
        false
    } else {
        (d[i] == 13 && d[i + 1] == 10 && d[i + 2] == 13 && d[i + 3] == 10) || has_blank_line(
            d,
            i + 1,
        )
    }
}

/// What to do after more of a request has been read.
#[derive(Clone, Copy, Debug, PartialEq, Eq, Structural)]
pub enum Reading {
    /// The head of the request is complete.
    Complete,
    /// It is not complete yet.
    More,
    /// It is too long.
    TooLong,
}

/// What to do after the bytes of a request read so far: the head is complete at a blank line, and
/// given up beyond 8192 bytes.
pub fn request_progress(buf: &[u8]) -> (r: Reading)
    ensures
        r == (if has_blank_line(buf@, 0) {
            Reading::Complete
        } else if buf@.len() > 8192 {
            Reading::TooLong
        } else {
            Reading::More
        }),
{
    let n: usize = buf.len();
    let mut i: usize = 0;
    while n >= 4 && i <= n - 4
        invariant
            n == buf@.len(),
            i <= n,
            has_blank_line(buf@, i as int) == has_blank_line(buf@, 0),
        decreases n - i,
    {
        if buf[i] == 13 && buf[i + 1] == 10 && buf[i + 2] == 13 && buf[i + 3] == 10 {
            return Reading::Complete;
        }
        i = i + 1;
    }
    if n > 8192 {
        Reading::TooLong
    } else {
        Reading::More
    }
}

/// True if one of these lines asks for a WebSocket.
pub open spec fn asks_upgrade(ls: Seq<Seq<char>>) -> bool {
    exists|i: int| 0 <= i < ls.len() && text::holds(text::lower(#[trigger] ls[i]), "upgrade: websocket"@)
}

/// The first position from `i` on of a line that gives a WebSocket key, or the number of lines.
pub open spec fn key_line(ls: Seq<Seq<char>>, i: int) -> int
    decreases ls.len() - i,
{
    if i >= ls.len() {
        ls.len() as int
    } else if text::begins(text::lower(ls[i]), "sec-websocket-key:"@) {
        i
    } else {
        key_line(ls, i + 1)
    }
}

/// What stands between the first and the second colon of a line, without white space at its ends.
pub open spec fn field_value(l: Seq<char>) -> Option<Seq<char>> {
    let a = text::index_from(l, ':', 0);
    if a < l.len() {
        Some(text::trim(l.subrange(a + 1, text::index_from(l, ':', a + 1))))
    } else {
        None
    }
}

/// The WebSocket key of a request.
pub open spec fn request_key(ls: Seq<Seq<char>>) -> Option<Seq<char>> {
    let i = key_line(ls, 0);
    if i < ls.len() {
        field_value(ls[i])
    } else {
        None
    }
}

/// A page that the bridge serves.
#[derive(Clone, Copy, Debug, PartialEq, Eq, Structural)]
pub enum Page {
    Index,
    Script,
    Module,
}

/// How a request is answered.
pub enum Answer {
    /// With these bytes, and no more.
    Text(String),
    /// With a page.
    Page(Page),
    /// With these bytes, and a WebSocket from then on.
    Upgrade(String),
    /// Not at all.
    Nothing,
}

/// The mathematical form of an answer.
pub enum AnswerV {
    Text(Seq<char>),
    Page(Page),
    Upgrade(Seq<char>),
    Nothing,
}

impl View for Answer {
    type V = AnswerV;

    open spec fn view(&self) -> AnswerV {
        match *self {
            Answer::Text(s) => AnswerV::Text(s@),
            Answer::Page(p) => AnswerV::Page(p),
            Answer::Upgrade(s) => AnswerV::Upgrade(s@),
            Answer::Nothing => AnswerV::Nothing,
        }
    }
}

/// The page of a path.
pub open spec fn page_of(path: Seq<char>) -> Option<Page> {
    if path == "/"@ || path == "/index.html"@ {
        Some(Page::Index)
    } else if path == "/unit.js"@ {
        Some(Page::Script)
    } else if path == "/unit.wasm"@ {
        Some(Page::Module)
    } else {
        None
    }
}

/// The path of a request: its second word, or a slash.
pub open spec fn request_path(r: Seq<char>) -> Seq<char> {
    match io_words::second_word(r) {
        Some(p) => p,
        None => "/"@,
    }
}

/// How a request is answered. A preflight request gets leave; one that asks for no WebSocket gets
/// a page; one that asks for a WebSocket gets it if it has a key.
pub open spec fn answer(r: Seq<char>) -> AnswerV {
    if text::begins(r, "OPTIONS "@) {
        AnswerV::Text(
            "HTTP/1.1 204 No Content\r\nAccess-Control-Allow-Origin: *\r\nAccess-Control-Allow-Methods: GET, OPTIONS\r\nAccess-Control-Allow-Headers: *\r\nAccess-Control-Allow-Private-Network: true\r\nContent-Length: 0\r\n\r\n"@,
        )
    } else if !asks_upgrade(text::lines(r)) {
        match page_of(request_path(r)) {
            Some(p) => AnswerV::Page(p),
            None => AnswerV::Text("HTTP/1.1 404 Not Found\r\nContent-Length: 0\r\n\r\n"@),
        }
    } else {
        match request_key(text::lines(r)) {
            Some(k) => AnswerV::Upgrade(
                "HTTP/1.1 101 Switching Protocols\r\nUpgrade: websocket\r\nConnection: Upgrade\r\nSec-WebSocket-Accept: "@
                    + accept_key(k) + "\r\n\r\n"@,
            ),
            None => AnswerV::Nothing,
        }
    }
}

fn find_upgrade(rows: &[String]) -> (b: bool)
    ensures
        b == asks_upgrade(text::texts(rows@)),
{
    let ghost ls = text::texts(rows@);
    let mut i: usize = 0;
    while i < rows.len()
        invariant
            i <= rows@.len(),
            ls == text::texts(rows@),
            forall|j: int| 0 <= j < i ==> !text::holds(text::lower(#[trigger] ls[j]), "upgrade: websocket"@),
        decreases rows@.len() - i,
    {
        let l = to_lower(rows[i].as_str());
        assert(ls[i as int] == rows@[i as int]@);
        if contains_text(l.as_str(), "upgrade: websocket") {
            return true;
        }
        i = i + 1;
    }
    false
}

fn find_key(rows: &[String]) -> (r: Option<String>)
    ensures
        text::opt_text(r) == request_key(text::texts(rows@)),
{
    let ghost ls = text::texts(rows@);
    let mut i: usize = 0;
    while i < rows.len()
        invariant
            i <= rows@.len(),
            ls == text::texts(rows@),
            key_line(ls, i as int) == key_line(ls, 0),
        decreases rows@.len() - i,
    {
        let l = to_lower(rows[i].as_str());
        assert(ls[i as int] == rows@[i as int]@);
        if begins_with(l.as_str(), "sec-websocket-key:") {
            let v = to_chars(rows[i].as_str());
            let a = position_from(&v, ':', 0);
            if a < v.len() {
                let b = position_from(&v, ':', a + 1);
                let field = from_chars(&v, a + 1, b);
                return Some(trimmed(field.as_str()));
            }
            return None;
        }
        i = i + 1;
    }
    None
}

/// How a request is answered.
pub fn answer_request(request: &str) -> (r: Answer)
    ensures
        r@ == answer(request@),
{
    if begins_with(request, "OPTIONS ") {
        return Answer::Text(
            text(
                "HTTP/1.1 204 No Content\r\nAccess-Control-Allow-Origin: *\r\nAccess-Control-Allow-Methods: GET, OPTIONS\r\nAccess-Control-Allow-Headers: *\r\nAccess-Control-Allow-Private-Network: true\r\nContent-Length: 0\r\n\r\n",
            ),
        );
    }
    let rows = split_lines(request);
    if !find_upgrade(&rows) {
        let path = match find_second_word(request) {
            Some(p) => p,
            None => text("/"),
        };
        let p = path.as_str();
        return if same_text(p, "/") || same_text(p, "/index.html") {
            Answer::Page(Page::Index)
        } else if same_text(p, "/unit.js") {
            Answer::Page(Page::Script)
        } else if same_text(p, "/unit.wasm") {
            Answer::Page(Page::Module)
        } else {
            Answer::Text(text("HTTP/1.1 404 Not Found\r\nContent-Length: 0\r\n\r\n"))
        };
    }
    match find_key(&rows) {
        Some(k) => {
            let mut out = text(
                "HTTP/1.1 101 Switching Protocols\r\nUpgrade: websocket\r\nConnection: Upgrade\r\nSec-WebSocket-Accept: ",
            );
            let a = ws_accept_key(k.as_str());
            out.append(a.as_str());
            out.append("\r\n\r\n");
            Answer::Upgrade(out)
        },
        None => Answer::Nothing,
    }
}

/// How the bytes of a request are answered.
pub fn answer_bytes(request: &[u8]) -> (r: Answer)
    ensures
        r@ == answer(wire::text_of(request@)),
{
    answer_request(from_lossy(request).as_str())
}

/// The content type of a page.
pub open spec fn content_type(p: Page) -> Seq<char> {
    match p {
        Page::Index => "text/html; charset=utf-8"@,
        Page::Script => "application/javascript; charset=utf-8"@,
        Page::Module => "application/wasm"@,
    }
}

/// The head of the answer that carries a page of `n` bytes.
pub fn page_head(p: Page, n: usize) -> (out: String)
    ensures
        out@ == "HTTP/1.1 200 OK\r\nContent-Type: "@ + content_type(p) + "\r\nContent-Length: "@
            + text::dec(n as nat)
            + "\r\nConnection: close\r\nAccess-Control-Allow-Origin: *\r\n\r\n"@,
{
    let mut out = text("HTTP/1.1 200 OK\r\nContent-Type: ");
    match p {
        Page::Index => out.append("text/html; charset=utf-8"),
        Page::Script => out.append("application/javascript; charset=utf-8"),
        Page::Module => out.append("application/wasm"),
    }
    out.append("\r\nContent-Length: ");
    push_usize(&mut out, n);
    out.append("\r\nConnection: close\r\nAccess-Control-Allow-Origin: *\r\n\r\n");
    out
}

/// The message that greets a browser.
pub fn welcome() -> (s: &'static str)
    ensures
        s@ == "{\"type\":\"welcome\",\"id\":\"server\"}"@,
{
    "{\"type\":\"welcome\",\"id\":\"server\"}"
}

/// The frame that holds the state of the mesh, once there is one.
pub open spec fn state_bytes(json: Seq<char>) -> Seq<u8> {
    if json.len() == 0 {
        Seq::empty()
    } else {
        text_frame(json)
    }
}

/// The frame that holds the state of the mesh; nothing while there is none.
pub fn state_frame(json: &str) -> (frame: Vec<u8>)
    ensures
        frame@ == state_bytes(json@),
{
    if json.unicode_len() == 0 {
        Vec::new()
    } else {
        ws_encode_text(json)
    }
}

// ---------------------------------------------------------------------------
// The mesh as JSON
// ---------------------------------------------------------------------------

/// What the state of the mesh is made of.
pub struct MeshJsonParams<'a> {
    pub self_id: &'a str,
    pub self_fitness: i64,
    pub self_generation: u32,
    /// Identity, fitness and address of each peer.
    pub peers: &'a [(String, i64, String)],
    /// All, pending, active and completed goals.
    pub goals: (usize, usize, usize, usize),
    pub recent_events: &'a [String],
    /// Identity and generation of each child.
    pub children: &'a [(String, u32)],
    pub watch_count: usize,
    pub alert_count: usize,
}

/// The mathematical form of what the state of the mesh is made of.
pub struct JsonV {
    pub self_id: Seq<char>,
    pub self_fitness: i64,
    pub self_generation: u32,
    pub peers: Seq<(Seq<char>, i64, Seq<char>)>,
    pub goals: (usize, usize, usize, usize),
    pub recent_events: Seq<Seq<char>>,
    pub children: Seq<(Seq<char>, u32)>,
    pub watch_count: usize,
    pub alert_count: usize,
}

/// Peers in mathematical form.
pub open spec fn peer_rows(s: Seq<(String, i64, String)>) -> Seq<(Seq<char>, i64, Seq<char>)> {
    Seq::new(s.len(), |i: int| (s[i].0@, s[i].1, s[i].2@))
}

/// Children in mathematical form.
pub open spec fn child_rows(s: Seq<(String, u32)>) -> Seq<(Seq<char>, u32)> {
    Seq::new(s.len(), |i: int| (s[i].0@, s[i].1))
}

impl<'a> View for MeshJsonParams<'a> {
    type V = JsonV;

    open spec fn view(&self) -> JsonV {
        JsonV {
            self_id: self.self_id@,
            self_fitness: self.self_fitness,
            self_generation: self.self_generation,
            peers: peer_rows(self.peers@),
            goals: self.goals,
            recent_events: text::texts(self.recent_events@),
            children: child_rows(self.children@),
            watch_count: self.watch_count,
            alert_count: self.alert_count,
        }
    }
}

/// A comma before every item but the first.
pub open spec fn comma(n: nat) -> Seq<char> {
    if n > 1 {
        ","@
    } else {
        ""@
    }
}

/// Peers as JSON objects.
pub open spec fn peers_json(s: Seq<(Seq<char>, i64, Seq<char>)>) -> Seq<char>
    decreases s.len(),
{
    if s.len() == 0 {
        Seq::empty()
    } else {
        peers_json(s.drop_last()) + (comma(s.len()) + "{\"id\":\""@ + s.last().0
            + "\",\"fitness\":"@ + text::dec_int(s.last().1 as int) + ",\"addr\":\""@ + s.last().2
            + "\"}"@)
    }
}

/// A text with a backslash before each backslash and each quote.
pub open spec fn escaped(s: Seq<char>) -> Seq<char>
    decreases s.len(),
{
    if s.len() == 0 {
        Seq::empty()
    } else if s.last() == '\\' || s.last() == '"' {
        escaped(s.drop_last()).push('\\').push(s.last())
    } else {
        escaped(s.drop_last()).push(s.last())
    }
}

/// Events as JSON strings.
pub open spec fn events_json(s: Seq<Seq<char>>) -> Seq<char>
    decreases s.len(),
{
    if s.len() == 0 {
        Seq::empty()
    } else {
        events_json(s.drop_last()) + (comma(s.len()) + "\""@ + escaped(s.last()) + "\""@)
    }
}

/// Children as JSON objects.
pub open spec fn children_json(s: Seq<(Seq<char>, u32)>) -> Seq<char>
    decreases s.len(),
{
    if s.len() == 0 {
        Seq::empty()
    } else {
        children_json(s.drop_last()) + (comma(s.len()) + "{\"id\":\""@ + s.last().0
            + "\",\"generation\":"@ + text::dec(s.last().1 as nat) + "}"@)
    }
}

/// The state of the mesh as JSON.
pub open spec fn mesh_json(p: JsonV) -> Seq<char> {
    "{\"type\":\"mesh_state\",\"self_id\":\""@ + p.self_id + "\",\"self_fitness\":"@ + text::dec_int(
        p.self_fitness as int,
    ) + ",\"self_generation\":"@ + text::dec(p.self_generation as nat) + ","@ + "\"peers\":["@
        + peers_json(p.peers) + "],"@ + "\"goals\":{\"total\":"@ + text::dec(p.goals.0 as nat)
        + ",\"pending\":"@ + text::dec(p.goals.1 as nat) + ",\"active\":"@ + text::dec(p.goals.2 as nat)
        + ",\"completed\":"@ + text::dec(p.goals.3 as nat) + "},"@ + "\"recent_events\":["@
        + events_json(p.recent_events) + "],"@ + "\"children\":["@ + children_json(
        p.children,
    ) + "],"@ + "\"watch_count\":"@ + text::dec(p.watch_count as nat) + ",\"alert_count\":"@ + text::dec(
        p.alert_count as nat,
    ) + "}"@
}

fn push_comma(out: &mut String, i: usize)
    ensures
        final(out)@ == old(out)@ + comma((i + 1) as nat),
{
    if i > 0 {
        out.append(",");
    } else {
        out.append("");
    }
}

/// A text with a backslash before each backslash and each quote.
pub fn escape(s: &str) -> (out: String)
    ensures
        out@ == escaped(s@),
{
    let v = to_chars(s);
    let mut out = String::new();
    let mut i: usize = 0;
    assert(out@ =~= escaped(v@.take(0)));
    while i < v.len()
        invariant
            i <= v@.len(),
            out@ == escaped(v@.take(i as int)),
        decreases v@.len() - i,
    {
        assert(v@.take(i + 1).drop_last() =~= v@.take(i as int));
        let c: char = v[i];
        if c == '\\' || c == '"' {
            out.push('\\');
        }
        out.push(c);
        i = i + 1;
    }
    assert(v@.take(i as int) =~= v@);
    out
}

fn format_peers(peers: &[(String, i64, String)]) -> (out: String)
    ensures
        out@ == peers_json(peer_rows(peers@)),
{
    let ghost rows = peer_rows(peers@);
    let mut out = String::new();
    let mut i: usize = 0;
    assert(out@ =~= peers_json(rows.take(0)));
    while i < peers.len()
        invariant
            i <= peers@.len(),
            rows == peer_rows(peers@),
            out@ == peers_json(rows.take(i as int)),
        decreases peers@.len() - i,
    {
        assert(rows.take(i + 1).drop_last() =~= rows.take(i as int));
        let mut row = String::new();
        push_comma(&mut row, i);
        row.append("{\"id\":\"");
        row.append(peers[i].0.as_str());
        row.append("\",\"fitness\":");
        push_i64(&mut row, peers[i].1);
        row.append(",\"addr\":\"");
        row.append(peers[i].2.as_str());
        row.append("\"}");
        let ghost p = rows[i as int];
        assert(row@ =~= comma((i + 1) as nat) + "{\"id\":\""@ + p.0 + "\",\"fitness\":"@ + text::dec_int(
            p.1 as int,
        ) + ",\"addr\":\""@ + p.2 + "\"}"@);
        out.append(row.as_str());
        i = i + 1;
    }
    assert(rows.take(i as int) =~= rows);
    out
}

fn format_events(events: &[String]) -> (out: String)
    ensures
        out@ == events_json(text::texts(events@)),
{
    let ghost ts = text::texts(events@);
    let mut out = String::new();
    let mut i: usize = 0;
    assert(out@ =~= events_json(ts.take(0)));
    while i < events.len()
        invariant
            i <= events@.len(),
            ts == text::texts(events@),
            out@ == events_json(ts.take(i as int)),
        decreases events@.len() - i,
    {
        assert(ts.take(i + 1).drop_last() =~= ts.take(i as int));
        let mut row = String::new();
        push_comma(&mut row, i);
        row.append("\"");
        let e = escape(events[i].as_str());
        row.append(e.as_str());
        row.append("\"");
        assert(row@ =~= comma((i + 1) as nat) + "\""@ + e@ + "\""@);
        out.append(row.as_str());
        i = i + 1;
    }
    assert(ts.take(i as int) =~= ts);
    out
}

fn format_children(children: &[(String, u32)]) -> (out: String)
    ensures
        out@ == children_json(child_rows(children@)),
{
    let ghost rows = child_rows(children@);
    let mut out = String::new();
    let mut i: usize = 0;
    assert(out@ =~= children_json(rows.take(0)));
    while i < children.len()
        invariant
            i <= children@.len(),
            rows == child_rows(children@),
            out@ == children_json(rows.take(i as int)),
        decreases children@.len() - i,
    {
        assert(rows.take(i + 1).drop_last() =~= rows.take(i as int));
        let mut row = String::new();
        push_comma(&mut row, i);
        row.append("{\"id\":\"");
        row.append(children[i].0.as_str());
        row.append("\",\"generation\":");
        push_u64(&mut row, children[i].1 as u64);
        row.append("}");
        let ghost p = rows[i as int];
        assert(row@ =~= comma((i + 1) as nat) + "{\"id\":\""@ + p.0 + "\",\"generation\":"@ + text::dec(
            p.1 as nat,
        ) + "}"@);
        out.append(row.as_str());
        i = i + 1;
    }
    assert(rows.take(i as int) =~= rows);
    out
}

/// The state of the mesh as JSON, for the browsers.
pub fn build_mesh_json(params: MeshJsonParams) -> (out: String)
    ensures
        out@ == mesh_json(params@),
{
    let mut out = text("{\"type\":\"mesh_state\",\"self_id\":\"");
    out.append(params.self_id);
    out.append("\",\"self_fitness\":");
    push_i64(&mut out, params.self_fitness);
    out.append(",\"self_generation\":");
    push_u64(&mut out, params.self_generation as u64);
    out.append(",");
    out.append("\"peers\":[");
    let p = format_peers(params.peers);
    out.append(p.as_str());
    out.append("],");
    out.append("\"goals\":{\"total\":");
    push_usize(&mut out, params.goals.0);
    out.append(",\"pending\":");
    push_usize(&mut out, params.goals.1);
    out.append(",\"active\":");
    push_usize(&mut out, params.goals.2);
    out.append(",\"completed\":");
    push_usize(&mut out, params.goals.3);
    out.append("},");
    out.append("\"recent_events\":[");
    let e = format_events(params.recent_events);
    out.append(e.as_str());
    out.append("],");
    out.append("\"children\":[");
    let c = format_children(params.children);
    out.append(c.as_str());
    out.append("],");
    out.append("\"watch_count\":");
    push_usize(&mut out, params.watch_count);
    out.append(",\"alert_count\":");
    push_usize(&mut out, params.alert_count);
    out.append("}");
    out
}

} // verus!
