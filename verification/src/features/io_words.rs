//! Addresses, requests and answers of plain HTTP, and the wall clock in seconds.

use crate::clock::now_millis;
use crate::text;
use crate::text::{
    char_is_space, find_text, from_chars, parse_u64, position_from, push_u64, push_usize,
    split_lines, text, to_chars,
};
use crate::wire;
use crate::wire::from_lossy;
use vstd::prelude::*;

verus! {

/// The last position that holds `c` among the first `n`, or -1 if there is none.
pub open spec fn last_index(s: Seq<char>, c: char, n: int) -> int
    decreases n,
{
    if n <= 0 {
        -1
    } else if s[n - 1] == c {
        n - 1
    } else {
        last_index(s, c, n - 1)
    }
}

/// A URL without the scheme `http://`.
pub open spec fn without_scheme(url: Seq<char>) -> Seq<char> {
    if text::occurs_at(url, "http://"@, 0) {
        url.skip("http://"@.len() as int)
    } else {
        url
    }
}

/// The part of a schemeless URL before the first slash.
pub open spec fn authority(s: Seq<char>) -> Seq<char> {
    s.take(text::index_from(s, '/', 0))
}

/// The path of a schemeless URL: from the first slash on, or a slash if there is none.
pub open spec fn path_of(s: Seq<char>) -> Seq<char> {
    let i = text::index_from(s, '/', 0);
    if i < s.len() {
        s.skip(i)
    } else {
        "/"@
    }
}

/// The host of an authority: what stands before the last colon, or all of it.
pub open spec fn host_of(a: Seq<char>) -> Seq<char> {
    let i = last_index(a, ':', a.len() as int);
    if i >= 0 {
        a.take(i)
    } else {
        a
    }
}

/// The port of an authority: the number behind the last colon, or 80; `None` if what stands there
/// is no port.
pub open spec fn port_of(a: Seq<char>) -> Option<int> {
    let i = last_index(a, ':', a.len() as int);
    if i >= 0 {
        text::in_range(text::parse_nat(a.skip(i + 1)), 0, 65535)
    } else {
        Some(80)
    }
}

/// The host, the port and the path of a URL, or the error `bad port`.
pub fn parse_url(url: &str) -> (r: Result<(String, u16, String), String>)
    ensures
        ({
            let s = without_scheme(url@);
            let a = authority(s);
            match port_of(a) {
                Some(p) => r matches Ok(x) && x.0@ == host_of(a) && x.1 == p && x.2@ == path_of(s),
                None => r matches Err(e) && e@ == "bad port"@,
            }
        }),
{
    let v = to_chars(url);
    let scheme = to_chars("http://");
    let start: usize = match find_text(&v, &scheme, 0) {
        Some(k) => if k == 0 {
            scheme.len()
        } else {
            0
        },
        None => 0,
    };
    let ghost s = without_scheme(url@);
    proof {
        text::lemma_find_from(v@, scheme@, 0);
        assert(v@.subrange(start as int, v@.len() as int) =~= s);
    }
    let rest = from_chars(&v, start, v.len());
    let w = to_chars(rest.as_str());
    let slash = position_from(&w, '/', 0);
    let path = if slash < w.len() {
        let p = from_chars(&w, slash, w.len());
        assert(p@ =~= s.skip(slash as int));
        p
    } else {
        text("/")
    };
    let host_port = from_chars(&w, 0, slash);
    assert(host_port@ =~= authority(s));
    let a = to_chars(host_port.as_str());
    let mut i: usize = a.len();
    while i > 0 && a[i - 1] != ':'
        invariant
            i <= a@.len(),
            last_index(a@, ':', i as int) == last_index(a@, ':', a@.len() as int),
        decreases i,
    {
        i = i - 1;
    }
    if i == 0 {
        return Ok((host_port, 80, path));
    }
    let host = from_chars(&a, 0, i - 1);
    assert(host@ =~= host_of(a@));
    let port_text = from_chars(&a, i, a.len());
    assert(port_text@ =~= a@.skip(i as int));
    match parse_u64(port_text.as_str(), 65535) {
        Some(p) => Ok((host, p as u16, path)),
        None => Err(text("bad port")),
    }
}

/// Where the head of an answer ends: the first position before a blank line, or 0 if there is none.
pub open spec fn head_end(d: Seq<u8>, i: int) -> int
    decreases d.len() - i,
{
    if i + 4 > d.len() {
        0
    } else if d[i] == 13 && d[i + 1] == 10 && d[i + 2] == 13 && d[i + 3] == 10 {
        i
    } else {
        head_end(d, i + 1)
    }
}

/// The first position from `i` on that holds no white space.
pub open spec fn past_space(s: Seq<char>, i: int) -> int
    decreases s.len() - i,
{
    if i < s.len() && text::is_space(s[i]) {
        past_space(s, i + 1)
    } else {
        i
    }
}

/// The first position from `i` on that holds white space, or the length.
pub open spec fn past_word(s: Seq<char>, i: int) -> int
    decreases s.len() - i,
{
    if i < s.len() && !text::is_space(s[i]) {
        past_word(s, i + 1)
    } else {
        i
    }
}

/// The second word of a text, if there is one.
pub open spec fn second_word(s: Seq<char>) -> Option<Seq<char>> {
    let a = past_space(s, past_word(s, past_space(s, 0)));
    if a < s.len() {
        Some(s.subrange(a, past_word(s, a)))
    } else {
        None
    }
}

/// The status that the head of an answer names, as text.
pub open spec fn status_word(head: Seq<char>) -> Option<Seq<char>> {
    let l = text::lines(head);
    if l.len() > 0 {
        second_word(l[0])
    } else {
        None
    }
}

/// What is wrong with the bytes of an answer.
pub open spec fn answer_fault(d: Seq<u8>) -> Option<Seq<char>> {
    let e = head_end(d, 0);
    if e == 0 && d.len() > 4 {
        Some("no header boundary"@)
    } else {
        match status_word(wire::text_of(d.take(e))) {
            None => Some("no status line"@),
            Some(w) => if text::in_range(text::parse_nat(w), 0, 65535).is_none() {
                Some("bad status: "@ + w)
            } else {
                None
            },
        }
    }
}

proof fn lemma_past(s: Seq<char>, i: int)
    requires
        0 <= i <= s.len(),
    ensures
        i <= past_space(s, i) <= s.len(),
        i <= past_word(s, i) <= s.len(),
    decreases s.len() - i,
{
    if i < s.len() {
        lemma_past(s, i + 1);
    }
}

/// The first position from `from` on that holds no white space.
pub fn skip_space(v: &[char], from: usize) -> (r: usize)
    requires
        from <= v@.len(),
    ensures
        r == past_space(v@, from as int),
        from <= r <= v@.len(),
{
    let mut i: usize = from;
    while i < v.len() && char_is_space(v[i])
        invariant
            from <= i <= v@.len(),
            past_space(v@, i as int) == past_space(v@, from as int),
        decreases v@.len() - i,
    {
        i = i + 1;
    }
    i
}

fn skip_word(v: &[char], from: usize) -> (r: usize)
    requires
        from <= v@.len(),
    ensures
        r == past_word(v@, from as int),
        from <= r <= v@.len(),
{
    let mut i: usize = from;
    while i < v.len() && !char_is_space(v[i])
        invariant
            from <= i <= v@.len(),
            past_word(v@, i as int) == past_word(v@, from as int),
        decreases v@.len() - i,
    {
        i = i + 1;
    }
    i
}

/// The second word of a text, if there is one.
pub fn find_second_word(s: &str) -> (r: Option<String>)
    ensures
        text::opt_text(r) == second_word(s@),
{
    let v = to_chars(s);
    let a = skip_space(&v, 0);
    let b = skip_word(&v, a);
    let c = skip_space(&v, b);
    if c < v.len() {
        let d = skip_word(&v, c);
        Some(from_chars(&v, c, d))
    } else {
        None
    }
}

/// The body and the status of an answer, or what is wrong with it.
pub fn parse_http_response(data: &[u8]) -> (r: Result<(Vec<u8>, u16), String>)
    ensures
        match answer_fault(data@) {
            Some(e) => r matches Err(f) && f@ == e,
            None => r matches Ok(x) && ({
                let e = head_end(data@, 0);
                &&& x.0@ == data@.skip(e + 4)
                &&& Some(x.1 as int) == text::parse_nat(status_word(wire::text_of(data@.take(e)))->0)
            }),
        },
{
    let n: usize = data.len();
    let mut end: usize = 0;
    let mut i: usize = 0;
    let mut found: bool = false;
    while !found && n >= 4 && i <= n - 4
        invariant
            n == data@.len(),
            i <= n,
            !found ==> head_end(data@, i as int) == head_end(data@, 0) && end == 0,
            found ==> end == head_end(data@, 0) && end + 4 <= n,
        decreases
            (n - i) + (if found {
                0int
            } else {
                1
            }),
    {
        if data[i] == 13 && data[i + 1] == 10 && data[i + 2] == 13 && data[i + 3] == 10 {
            end = i;
            found = true;
        } else {
            i = i + 1;
        }
    }
    assert(end == head_end(data@, 0));
    if end == 0 && n > 4 {
        return Err(text("no header boundary"));
    }
    let head_bytes = bytes_between(data, 0, end);
    assert(head_bytes@ =~= data@.take(end as int));
    let head = from_lossy(&head_bytes);
    let rows = split_lines(head.as_str());
    let word = if rows.len() > 0 {
        assert(text::texts(rows@)[0] == rows@[0]@);
        find_second_word(rows[0].as_str())
    } else {
        None
    };
    match word {
        None => Err(text("no status line")),
        Some(w) => match parse_u64(w.as_str(), 65535) {
            Some(s) => {
                proof {
                    if end == 0 {
                        assert(data@.take(0).len() == 0);
                        lemma_empty_head();
                    }
                }
                let body = bytes_between(data, end + 4, n);
                assert(body@ =~= data@.skip(end + 4));
                Ok((body, s as u16))
            },
            None => {
                let mut e = text("bad status: ");
                e.append(w.as_str());
                Err(e)
            },
        },
    }
}

/// An empty head names no status.
proof fn lemma_empty_head()
    ensures
        forall|d: Seq<u8>| d.len() == 0 ==> #[trigger] status_word(wire::text_of(d)).is_none(),
{
    assert forall|d: Seq<u8>| d.len() == 0 implies #[trigger] status_word(wire::text_of(d)).is_none() by {
        assert(d =~= Seq::<u8>::empty());
        reveal_with_fuel(vstd::utf8::valid_utf8, 1);
        reveal_with_fuel(vstd::utf8::decode_utf8, 1);
        assert(wire::text_of(d) =~= Seq::<char>::empty());
    }
}

/// The bytes from `from` to `to`.
pub fn bytes_between(data: &[u8], from: usize, to: usize) -> (v: Vec<u8>)
    requires
        from <= to <= data@.len(),
    ensures
        v@ == data@.subrange(from as int, to as int),
{
    let mut v: Vec<u8> = Vec::new();
    let mut i: usize = from;
    while i < to
        invariant
            from <= i <= to <= data@.len(),
            v@ == data@.subrange(from as int, i as int),
        decreases to - i,
    {
        v.push(data[i]);
        i = i + 1;
        assert(v@ =~= data@.subrange(from as int, i as int));
    }
    v
}

/// The text of a request for a page.
pub open spec fn get_request_text(host: Seq<char>, path: Seq<char>) -> Seq<char> {
    "GET "@ + path + " HTTP/1.1\r\nHost: "@ + host
        + "\r\nConnection: close\r\nUser-Agent: unit/0.4.0\r\n\r\n"@
}

/// The head of a request that sends `n` bytes.
pub open spec fn post_request_text(host: Seq<char>, path: Seq<char>, n: nat) -> Seq<char> {
    "POST "@ + path + " HTTP/1.1\r\nHost: "@ + host + "\r\nConnection: close\r\nContent-Length: "@
        + text::dec(n) + "\r\nUser-Agent: unit/0.4.0\r\n\r\n"@
}

/// The text of a request for a page.
pub fn get_request(host: &str, path: &str) -> (out: String)
    ensures
        out@ == get_request_text(host@, path@),
{
    let mut out = text("GET ");
    out.append(path);
    out.append(" HTTP/1.1\r\nHost: ");
    out.append(host);
    out.append("\r\nConnection: close\r\nUser-Agent: unit/0.4.0\r\n\r\n");
    out
}

/// The head of a request that sends `n` bytes.
pub fn post_request(host: &str, path: &str, n: usize) -> (out: String)
    ensures
        out@ == post_request_text(host@, path@, n as nat),
{
    let mut out = text("POST ");
    out.append(path);
    out.append(" HTTP/1.1\r\nHost: ");
    out.append(host);
    out.append("\r\nConnection: close\r\nContent-Length: ");
    push_usize(&mut out, n);
    out.append("\r\nUser-Agent: unit/0.4.0\r\n\r\n");
    out
}

/// The address to connect to: host and port.
pub fn address(host: &str, port: u16) -> (out: String)
    ensures
        out@ == host@ + ":"@ + text::dec(port as nat),
{
    let mut out = text(host);
    out.append(":");
    push_u64(&mut out, port as u64);
    out
}

/// Seconds since the Unix epoch; 0 if the clock stands before it.
pub fn timestamp() -> (t: i64)
    ensures
        0 <= t <= 18446744073709551,
{
    (now_millis() / 1000) as i64
}

} // verus!
