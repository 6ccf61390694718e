//! What goes between a unit and a browser: frames, messages and pages.

use crate::features::io_words;
use crate::features::ws_bridge;
use crate::features::ws_bridge::{AnswerV, BridgeV, ClientV, EventV, Page};
use crate::text;
use crate::text_laws;
use crate::text_laws::free_of;
use crate::wire;
use vstd::prelude::*;
use vstd::utf8::*;

verus! {

// ---------------------------------------------------------------------------
// Frames
// ---------------------------------------------------------------------------

/// A text goes to a browser in one frame: 129, then its length, then its bytes, without a mask. The
/// length has one byte below 126, else 126 and two bytes below 65536, else 127 and eight bytes.
pub proof fn law_frame_layout(s: Seq<char>)
    ensures
        ({
            let b = encode_utf8(s);
            let f = ws_bridge::text_frame(s);
            &&& f[0] == 129
            &&& b.len() < 126 ==> f.len() == 2 + b.len() && f[1] == b.len() && f.skip(2) == b
            &&& 126 <= b.len() < 65536 ==> f.len() == 4 + b.len() && f[1] == 126 && f[2] == b.len()
                / 256 && f[3] == b.len() % 256 && f.skip(4) == b
            &&& b.len() >= 65536 ==> f.len() == 10 + b.len() && f[1] == 127 && f.skip(10) == b
        }),
{
    let b = encode_utf8(s);
    let f = ws_bridge::text_frame(s);
    wire::lemma_be(b.len(), 8);
    wire::lemma_be(b.len(), 2);
    if b.len() < 126 {
        assert(f.skip(2) =~= b);
    } else if b.len() < 65536 {
        text_laws::law_bytes_of_numbers(b.len());
        assert(f.skip(4) =~= b);
    } else {
        assert(f.skip(10) =~= b);
    }
}

/// The kind of a frame is the lower half of its first byte: 8 closes the connection, 9 asks whether
/// the unit is there, which answers with 138 and the same bytes.
pub proof fn law_frame_kinds(d: Seq<u8>, b: Seq<u8>)
    requires
        d.len() > 0,
    ensures
        ws_bridge::closes(d) <==> d[0] as int % 16 == 8,
        ws_bridge::pings(d) <==> d[0] as int % 16 == 9,
        b.len() < 126 ==> ws_bridge::pong_frame(b) == seq![138u8, b.len() as u8] + b,
        !ws_bridge::closes(Seq::empty()) && !ws_bridge::pings(Seq::empty()),
{
    if b.len() < 126 {
        assert(ws_bridge::pong_frame(b) =~= seq![138u8, b.len() as u8] + b);
    }
}

/// A key that is put on bytes is put on each in turn, the first byte of the key on the first; put on
/// twice it is gone.
pub proof fn law_mask(p: Seq<u8>, key: Seq<u8>, i: int)
    requires
        key.len() == 4,
        0 <= i < p.len(),
    ensures
        ws_bridge::masked(p, key).len() == p.len(),
        key[i % 4] == 0 ==> ws_bridge::masked(p, key)[i] == p[i],
        key[i % 4] == p[i] ==> ws_bridge::masked(p, key)[i] == 0,
        ws_bridge::masked(ws_bridge::masked(p, key), key)[i] == p[i],
{
    let (a, b) = (p[i], key[i % 4]);
    assert(a ^ 0 == a) by (bit_vector);
    assert(a ^ a == 0) by (bit_vector);
    assert((a ^ b) ^ b == a) by (bit_vector);
}

// ---------------------------------------------------------------------------
// Messages
// ---------------------------------------------------------------------------

/// A message with a field: what comes before it, its name in quotes, a colon, and the rest.
pub open spec fn with_field(pre: Seq<char>, key: Seq<char>, rest: Seq<char>) -> Seq<char> {
    pre + ("\""@ + key + "\""@) + seq![':'] + rest
}

/// True if the name of a field stands in a message only where it is put, as far as looking for it
/// goes.
pub open spec fn first_there(pre: Seq<char>, key: Seq<char>, rest: Seq<char>) -> bool {
    forall|j: int|
        0 <= j < pre.len() ==> !#[trigger] text::occurs_at(
            with_field(pre, key, rest),
            "\""@ + key + "\""@,
            j,
        )
}

proof fn lemma_value_at(pre: Seq<char>, key: Seq<char>, rest: Seq<char>)
    requires
        first_there(pre, key, rest),
        rest.len() > 0,
        !text::is_space(rest[0]),
    ensures
        ws_bridge::value_at(with_field(pre, key, rest), key) == Some(
            (pre.len() + key.len() + 3) as int,
        ),
{
    reveal_strlit("\"");
    let q = "\""@ + key + "\""@;
    let s = with_field(pre, key, rest);
    let n = pre.len() as int;
    assert(s.subrange(n, n + q.len()) =~= q);
    assert(text::occurs_at(s, q, n));
    text::lemma_find_from(s, q, 0);
    let k = text::find_from(s, q, 0)->0;
    assert(k == n) by {
        if k < n {
            assert(!text::occurs_at(s, q, k));
        }
    }
    let a = n + q.len();
    assert(s[a] == ':');
    assert(s[a + 1] == rest[0]);
    reveal_with_fuel(io_words::past_space, 2);
}

/// The text of a field is what stands between the quotes behind its name.
pub proof fn law_text_fields(pre: Seq<char>, key: Seq<char>, value: Seq<char>, post: Seq<char>)
    requires
        first_there(pre, key, seq!['"'] + value + seq!['"'] + post),
        free_of(value, '"'),
    ensures
        ws_bridge::json_string(with_field(pre, key, seq!['"'] + value + seq!['"'] + post), key)
            == Some(value),
{
    let rest = seq!['"'] + value + seq!['"'] + post;
    let s = with_field(pre, key, rest);
    reveal_strlit("\"");
    lemma_value_at(pre, key, rest);
    let a = (pre.len() + key.len() + 3) as int;
    assert(s.skip(a) =~= rest);
    assert(forall|i: int| 0 <= i < rest.len() ==> s[a + i] == #[trigger] rest[i]);
    lemma_quote(s, value, a + 1, 0);
    assert(s.subrange(a + 1, a + 1 + value.len()) =~= value);
}

proof fn lemma_quote(s: Seq<char>, value: Seq<char>, from: int, i: int)
    requires
        0 <= i <= value.len(),
        0 <= from,
        from + value.len() < s.len(),
        forall|j: int| 0 <= j < value.len() ==> s[from + j] == #[trigger] value[j],
        s[from + value.len()] == '"',
        free_of(value, '"'),
    ensures
        text::index_from(s, '"', from + i) == from + value.len(),
    decreases value.len() - i,
{
    if i < value.len() {
        assert(s[from + i] == value[i]);
        lemma_quote(s, value, from, i + 1);
    }
}

/// The number of a field is what its digits say, up to the first character that is none.
pub proof fn law_number_fields(pre: Seq<char>, key: Seq<char>, n: i64, c: char, post: Seq<char>)
    requires
        first_there(pre, key, text::dec_int(n as int) + seq![c] + post),
        !text::is_digit(c),
        c != '-',
    ensures
        ws_bridge::json_number(
            with_field(pre, key, text::dec_int(n as int) + seq![c] + post),
            key,
        ) == Some(n as int),
{
    let d = text::dec_int(n as int);
    let rest = d + seq![c] + post;
    let s = with_field(pre, key, rest);
    reveal_strlit("\"");
    text_laws::law_numbers_as_text(n as int, 0);
    text_laws::law_only_numerals_are_numbers(d);
    assert forall|i: int| 0 <= i < d.len() implies text::is_digit(#[trigger] d[i]) || d[i] == '-' by {
        if i == 0 && d[0] == '+' {
            lemma_no_plus(n as int);
        }
    }
    assert(rest[0] == d[0]);
    lemma_value_at(pre, key, rest);
    let a = (pre.len() + key.len() + 3) as int;
    assert(s.skip(a) =~= rest);
    assert(forall|i: int| 0 <= i < rest.len() ==> s[a + i] == #[trigger] rest[i]);
    assert forall|j: int| 0 <= j < d.len() implies s[a + j] == #[trigger] d[j] by {
        assert(rest[j] == d[j]);
    }
    assert(s[a + d.len()] == rest[d.len() as int]);
    lemma_past_digits(s, d, a, 0);
    assert(s.subrange(a, a + d.len()) =~= d);
}

proof fn lemma_no_plus(i: int)
    ensures
        text::dec_int(i)[0] != '+',
{
    if i >= 0 {
        lemma_first_digit(i as nat);
    }
}

proof fn lemma_first_digit(n: nat)
    ensures
        text::dec(n).len() > 0,
        text::dec(n)[0] != '+',
    decreases n,
{
    if n >= 10 {
        lemma_first_digit(n / 10);
    }
}

proof fn lemma_past_digits(s: Seq<char>, d: Seq<char>, from: int, i: int)
    requires
        0 <= i <= d.len(),
        0 <= from,
        from + d.len() < s.len(),
        forall|j: int| 0 <= j < d.len() ==> s[from + j] == #[trigger] d[j],
        forall|j: int| 0 <= j < d.len() ==> text::is_digit(#[trigger] d[j]) || d[j] == '-',
        !text::is_digit(s[from + d.len()]) && s[from + d.len()] != '-',
    ensures
        ws_bridge::past_digits(s, from + i) == from + d.len(),
    decreases d.len() - i,
{
    if i < d.len() {
        assert(s[from + i] == d[i]);
        lemma_past_digits(s, d, from, i + 1);
    }
}

/// What a browser says: a heartbeat tells its fitness, 0 if it does not; a goal its code and its
/// priority, 5 if it does not. Any other message says nothing.
pub proof fn law_what_a_browser_says(json: Seq<char>, id: Seq<char>)
    ensures
        ({
            let kind = ws_bridge::json_string(json, "type"@);
            let e = ws_bridge::message_event(json, id);
            &&& kind == Some("heartbeat"@) ==> (e matches Some(EventV::Heartbeat { id: who, fitness })
                && who == id && (ws_bridge::json_number(json, "fitness"@) matches Some(n)
                ==> i64::MIN <= n <= i64::MAX ==> fitness == n) && (ws_bridge::json_number(
                json,
                "fitness"@,
            ).is_none() ==> fitness == 0))
            &&& kind == Some("goal_submit"@) ==> (e matches Some(
                EventV::GoalSubmit { code, priority },
            ) && (ws_bridge::json_string(json, "code"@) matches Some(c) ==> code == c) && (
            ws_bridge::json_number(json, "priority"@) matches Some(n) ==> i64::MIN <= n <= i64::MAX
                ==> priority == n) && (ws_bridge::json_number(json, "priority"@).is_none()
                ==> priority == 5))
            &&& kind != Some("heartbeat"@) && kind != Some("goal_submit"@) ==> e.is_none()
        }),
{
    reveal_strlit("heartbeat");
    reveal_strlit("goal_submit");
    assert("heartbeat"@.len() == 9 && "goal_submit"@.len() == 11);
}

proof fn lemma_client(s: Seq<ClientV>, id: Seq<char>, i: int)
    requires
        0 <= i <= s.len(),
    ensures
        i <= ws_bridge::client_from(s, id, i) <= s.len(),
        ws_bridge::client_from(s, id, i) < s.len() ==> s[ws_bridge::client_from(s, id, i)].id == id,
        forall|j: int| i <= j < ws_bridge::client_from(s, id, i) ==> (#[trigger] s[j]).id != id,
    decreases s.len() - i,
{
    if i < s.len() && s[i].id != id {
        lemma_client(s, id, i + 1);
    }
}

/// A heartbeat brings the browser that sent it up to date, and no other. Every message that says
/// something is counted, and one that says nothing is not.
pub proof fn law_heartbeat_of_a_browser(b: BridgeV, k: int, fitness: i64, now: u64, code: Seq<char>)
    requires
        0 <= k < b.clients.len(),
        forall|j: int| 0 <= j < k ==> (#[trigger] b.clients[j]).id != b.clients[k].id,
        b.messages_relayed < u64::MAX,
    ensures
        ({
            let id = b.clients[k].id;
            let w = ws_bridge::heard(b, Some(EventV::Heartbeat { id, fitness }), now);
            let g = ws_bridge::heard(b, Some(EventV::GoalSubmit { code, priority: fitness }), now);
            &&& w.clients == b.clients.update(
                k,
                ClientV { last_heartbeat: now, fitness, ..b.clients[k] },
            )
            &&& w.messages_relayed == b.messages_relayed + 1 && w.port == b.port
            &&& g.clients == b.clients && g.messages_relayed == b.messages_relayed + 1
            &&& ws_bridge::heard(b, None, now) == b
        }),
{
    lemma_client(b.clients, b.clients[k].id, 0);
}

/// A browser that connects is listed once, and one that leaves no longer.
pub proof fn law_browsers_are_listed(s: Seq<ClientV>, c: ClientV, id: Seq<char>)
    requires
        forall|i: int, j: int|
            0 <= i < j < s.len() ==> (#[trigger] s[i]).id != (#[trigger] s[j]).id,
    ensures
        ({
            let w = ws_bridge::put_client(s, c);
            &&& w.contains(c)
            &&& forall|i: int, j: int|
                0 <= i < j < w.len() ==> (#[trigger] w[i]).id != (#[trigger] w[j]).id
            &&& w.len() <= s.len() + 1
        }),
        ({
            let w = ws_bridge::without_client(s, id);
            &&& forall|i: int| 0 <= i < w.len() ==> (#[trigger] w[i]).id != id
            &&& forall|x: ClientV| s.contains(x) && x.id != id ==> #[trigger] w.contains(x)
        }),
{
    lemma_client(s, c.id, 0);
    lemma_client(s, id, 0);
    let p = ws_bridge::put_client(s, c);
    let k = ws_bridge::client_from(s, c.id, 0);
    if k < s.len() {
        assert(p[k] == c);
    } else {
        assert(p[s.len() as int] == c);
    }
    let w = ws_bridge::without_client(s, id);
    let n = ws_bridge::client_from(s, id, 0);
    assert forall|x: ClientV| s.contains(x) && x.id != id implies #[trigger] w.contains(x) by {
        let i = choose|i: int| 0 <= i < s.len() && s[i] == x;
        if i < n {
            assert(w[i] == x);
        } else {
            assert(w[i - 1] == x);
        }
    }
}

/// Text as it is read back from between quotes: a backslash stands for the character behind it.
pub open spec fn unescaped(s: Seq<char>) -> Seq<char>
    decreases s.len(),
{
    if s.len() == 0 {
        Seq::empty()
    } else if s[0] == '\\' && s.len() > 1 {
        seq![s[1]] + unescaped(s.skip(2))
    } else {
        seq![s[0]] + unescaped(s.skip(1))
    }
}

proof fn lemma_escaped_first(s: Seq<char>)
    requires
        s.len() > 0,
    ensures
        ws_bridge::escaped(s) == (if s[0] == '\\' || s[0] == '"' {
            seq!['\\', s[0]]
        } else {
            seq![s[0]]
        }) + ws_bridge::escaped(s.skip(1)),
    decreases s.len(),
{
    let head = if s[0] == '\\' || s[0] == '"' {
        seq!['\\', s[0]]
    } else {
        seq![s[0]]
    };
    if s.len() == 1 {
        assert(s.drop_last().len() == 0);
        assert(ws_bridge::escaped(s.drop_last()) =~= Seq::empty());
        assert(ws_bridge::escaped(s.skip(1)) =~= Seq::empty());
        assert(ws_bridge::escaped(s) =~= head + ws_bridge::escaped(s.skip(1)));
    } else {
        let d = s.drop_last();
        lemma_escaped_first(d);
        assert(s.skip(1).drop_last() =~= d.skip(1));
        assert(ws_bridge::escaped(s) =~= head + ws_bridge::escaped(s.skip(1)));
    }
}

/// Events are escaped so that they can stand between quotes: read back they are the same.
pub proof fn law_escaping_is_undone(s: Seq<char>)
    ensures
        unescaped(ws_bridge::escaped(s)) == s,
    decreases s.len(),
{
    if s.len() > 0 {
        lemma_escaped_first(s);
        law_escaping_is_undone(s.skip(1));
        let e = ws_bridge::escaped(s);
        if s[0] == '\\' || s[0] == '"' {
            assert(e.skip(2) =~= ws_bridge::escaped(s.skip(1)));
        } else {
            assert(e.skip(1) =~= ws_bridge::escaped(s.skip(1)));
        }
        assert(seq![s[0]] + s.skip(1) =~= s);
    } else {
        assert(ws_bridge::escaped(s) =~= Seq::empty());
        assert(s =~= Seq::<char>::empty());
    }
}

// ---------------------------------------------------------------------------
// Pages
// ---------------------------------------------------------------------------

/// The pages of a unit, by their paths.
pub proof fn law_pages(path: Seq<char>)
    ensures
        path == "/"@ || path == "/index.html"@ ==> ws_bridge::page_of(path) == Some(Page::Index),
        path == "/unit.js"@ ==> ws_bridge::page_of(path) == Some(Page::Script),
        path == "/unit.wasm"@ ==> ws_bridge::page_of(path) == Some(Page::Module),
        ws_bridge::page_of(path).is_some() ==> path == "/"@ || path == "/index.html"@ || path
            == "/unit.js"@ || path == "/unit.wasm"@,
        ws_bridge::content_type(Page::Index) == "text/html; charset=utf-8"@,
        ws_bridge::content_type(Page::Script) == "application/javascript; charset=utf-8"@,
        ws_bridge::content_type(Page::Module) == "application/wasm"@,
{
    reveal_strlit("/");
    reveal_strlit("/index.html");
    reveal_strlit("/unit.js");
    reveal_strlit("/unit.wasm");
    assert("/"@.len() == 1 && "/index.html"@.len() == 11 && "/unit.js"@.len() == 8
        && "/unit.wasm"@.len() == 10);
}

/// A request is answered by a WebSocket exactly if one of its lines asks for it and one names a key;
/// else by the page that it names, or by the word that there is none.
pub proof fn law_requests_are_answered(r: Seq<char>)
    requires
        !text::begins(r, "OPTIONS "@),
    ensures
        ({
            let ls = text::lines(r);
            let wanted = exists|i: int|
                0 <= i < ls.len() && text::holds(
                    text::lower(#[trigger] ls[i]),
                    "upgrade: websocket"@,
                );
            let a = ws_bridge::answer(r);
            &&& a is Upgrade ==> wanted && ws_bridge::request_key(ls).is_some()
            &&& wanted && ws_bridge::request_key(ls).is_some() ==> a is Upgrade
            &&& wanted && ws_bridge::request_key(ls).is_none() ==> a == AnswerV::Nothing
            &&& !wanted ==> (a is Page <==> ws_bridge::page_of(ws_bridge::request_path(r)).is_some())
            &&& !wanted && !(a is Page) ==> a is Text
        }),
{
}

/// The key of a request is what stands behind the name of its field, without blanks.
pub proof fn law_key_of_a_request(name: Seq<char>, value: Seq<char>)
    requires
        free_of(name, ':'),
        free_of(value, ':'),
    ensures
        ws_bridge::field_value(name + seq![':'] + value) == Some(text::trim(value)),
{
    let l = name + seq![':'] + value;
    lemma_colon(name, value, 0);
    let a = name.len() as int;
    lemma_no_colon(l, a + 1);
    assert(l.subrange(a + 1, l.len() as int) =~= value);
}

proof fn lemma_colon(a: Seq<char>, b: Seq<char>, i: int)
    requires
        0 <= i <= a.len(),
        free_of(a, ':'),
    ensures
        text::index_from(a + seq![':'] + b, ':', i) == a.len(),
    decreases a.len() - i,
{
    let s = a + seq![':'] + b;
    if i < a.len() {
        assert(s[i] == a[i]);
        lemma_colon(a, b, i + 1);
    } else {
        assert(s[a.len() as int] == ':');
    }
}

proof fn lemma_no_colon(s: Seq<char>, i: int)
    requires
        0 <= i <= s.len(),
        forall|j: int| i <= j < s.len() ==> #[trigger] s[j] != ':',
    ensures
        text::index_from(s, ':', i) == s.len(),
    decreases s.len() - i,
{
    if i < s.len() {
        lemma_no_colon(s, i + 1);
    }
}

// ---------------------------------------------------------------------------
// Turns of a browser
// ---------------------------------------------------------------------------

/// A request is complete exactly if an empty line has come.
pub proof fn law_request_is_complete(d: Seq<u8>, i: int)
    requires
        0 <= i,
    ensures
        ws_bridge::has_blank_line(d, i) <==> exists|j: int|
            i <= j && j + 4 <= d.len() && #[trigger] d[j] == 13 && d[j + 1] == 10 && d[j + 2] == 13
                && d[j + 3] == 10,
    decreases d.len() - i,
{
    if i + 4 <= d.len() {
        law_request_is_complete(d, i + 1);
        assert(d[i] == d[i]);
    }
}

/// Every message that is understood gives one event, in order, and is counted; browsers neither come
/// nor go by it.
pub proof fn law_messages_are_heard(b: BridgeV, ms: Seq<Seq<char>>, id: Seq<char>, now: u64)
    requires
        b.messages_relayed + ms.len() <= u64::MAX,
    ensures
        ({
            let (es, c) = ws_bridge::all_heard(b, ms, id, now);
            &&& es.len() == ms.filter(
                |x: Seq<char>| ws_bridge::message_event(x, id).is_some(),
            ).len()
            &&& c.messages_relayed == b.messages_relayed + es.len()
            &&& es.len() <= ms.len()
            &&& c.clients.len() == b.clients.len()
            &&& forall|i: int|
                0 <= i < b.clients.len() ==> (#[trigger] c.clients[i]).id == b.clients[i].id
        }),
    decreases ms.len(),
{
    reveal(Seq::filter);
    if ms.len() > 0 {
        law_messages_are_heard(b, ms.drop_last(), id, now);
        let (es, c) = ws_bridge::all_heard(b, ms.drop_last(), id, now);
        lemma_client(c.clients, id, 0);
    }
}

/// What comes in is heard when its frames are whole, and what is left waits for more; nothing is
/// heard of a browser that closes.
pub proof fn law_turns(b: BridgeV, buf: Seq<u8>, chunk: Seq<u8>, id: Seq<char>, now: u64)
    ensures
        chunk.len() == 0 ==> ws_bridge::turn_messages(buf, chunk, id, b, now) == (
            Seq::<EventV>::empty(),
            b,
        ) && ws_bridge::turn_rest(buf, chunk) == buf,
        chunk.len() > 0 && chunk[0] % 16 == 8 ==> ws_bridge::turn_messages(
            buf,
            chunk,
            id,
            b,
            now,
        ) == (Seq::<EventV>::empty(), b),
        chunk.len() > 0 && chunk[0] % 16 != 8 ==> ws_bridge::turn_messages(
            buf,
            chunk,
            id,
            b,
            now,
        ) == ws_bridge::all_heard(b, ws_bridge::frames(buf + chunk).0, id, now),
        chunk.len() > 0 ==> ws_bridge::turn_rest(buf, chunk) == ws_bridge::frames(buf + chunk).1,
{
}

} // verus!
