//! What numbers look like as text and as bytes, and how text is taken apart.

use crate::cli;
use crate::features::io_words;
use crate::features::sha;
use crate::order;
use crate::text;
use crate::wire;
use vstd::prelude::*;

verus! {

// ---------------------------------------------------------------------------
// Numbers as text
// ---------------------------------------------------------------------------

proof fn lemma_dec(n: nat)
    ensures
        text::is_numeral(text::dec(n)),
        text::value(text::dec(n)) == n,
    decreases n,
{
    if n < 10 {
        let s = text::dec(n);
        assert(s.drop_last().len() == 0);
        assert(text::value(s.drop_last()) == 0);
    } else {
        lemma_dec(n / 10);
        let s = text::dec(n);
        let d = text::dec(n / 10);
        assert(s.drop_last() =~= d);
        assert forall|i: int| 0 <= i < s.len() implies text::is_digit(#[trigger] s[i]) by {
            if i < d.len() {
                assert(text::is_digit(d[i]));
            }
        }
    }
}

/// A number that is written in decimal and read again is the same number, with or without a sign;
/// and a number without sign reads as one.
pub proof fn law_numbers_as_text(i: int, n: nat)
    ensures
        text::parse_int(text::dec_int(i)) == Some(i),
        text::parse_nat(text::dec(n)) == Some(n as int),
        text::parse_int(text::one('+') + text::dec(n)) == Some(n as int),
        i < 0 ==> text::parse_nat(text::dec_int(i)).is_none(),
{
    lemma_dec(n);
    assert(text::is_digit(text::dec(n)[0]));
    let p = text::one('+') + text::dec(n);
    assert(p.skip(1) =~= text::dec(n));
    if i < 0 {
        lemma_dec((-i) as nat);
        let s = text::dec_int(i);
        assert(s.skip(1) =~= text::dec((-i) as nat));
    } else {
        lemma_dec(i as nat);
        assert(text::is_digit(text::dec(i as nat)[0]));
    }
}

/// What is read as a number has digits only, behind at most one sign.
pub proof fn law_only_numerals_are_numbers(s: Seq<char>)
    ensures
        text::parse_int(s).is_some() ==> s.len() > 0 && ('0' <= s.last() && s.last() <= '9')
            && forall|i: int|
            0 < i < s.len() ==> '0' <= #[trigger] s[i] && s[i] <= '9',
        text::parse_int(s).is_some() ==> s[0] == '-' || s[0] == '+' || ('0' <= s[0] && s[0] <= '9'),
{
    if text::parse_int(s).is_some() {
        if s[0] == '-' || s[0] == '+' {
            let t = s.skip(1);
            assert forall|i: int| 0 < i < s.len() implies '0' <= #[trigger] s[i] && s[i] <= '9' by {
                assert(text::is_digit(t[i - 1]));
            }
            assert(text::is_digit(t[t.len() - 1]));
        } else {
            assert(text::is_digit(s[s.len() - 1]));
            assert(text::is_digit(s[0]));
        }
    }
}

/// Digits of a numeral count from the right: one more digit makes ten times as much, and itself.
pub proof fn law_digits_count(s: Seq<char>, c: char)
    ensures
        text::value(s.push(c)) == 10 * text::value(s) + (c as int - 48),
        text::value(Seq::empty()) == 0,
{
    assert(s.push(c).drop_last() =~= s);
}

/// Each byte is two characters in hexadecimal, the higher half first.
pub proof fn law_hex_of_bytes(b: Seq<u8>, x: u8)
    ensures
        text::hex(b.push(x)) == text::hex(b).push(text::digit_char(x as int / 16)).push(
            text::digit_char(x as int % 16),
        ),
        text::hex(b).len() == 2 * b.len(),
        forall|d: int| 0 <= d < 10 ==> #[trigger] text::digit_char(d) as int == 48 + d,
        forall|d: int| 10 <= d < 16 ==> #[trigger] text::digit_char(d) as int == 97 + (d - 10),
    decreases b.len(),
{
    assert(b.push(x).drop_last() =~= b);
    if b.len() > 0 {
        law_hex_of_bytes(b.drop_last(), b.last());
    }
}

// ---------------------------------------------------------------------------
// Taking text apart
// ---------------------------------------------------------------------------

/// True of text that is blank throughout.
pub open spec fn blank(s: Seq<char>) -> bool {
    forall|i: int| 0 <= i < s.len() ==> text::is_space(#[trigger] s[i])
}

proof fn lemma_trim_end(s: Seq<char>)
    ensures
        ({
            let t = text::trim_end(s);
            &&& t.len() <= s.len() && s.take(t.len() as int) == t && blank(s.skip(t.len() as int))
            &&& t.len() > 0 ==> !text::is_space(t.last())
        }),
    decreases s.len(),
{
    let t = text::trim_end(s);
    if s.len() > 0 && text::is_space(s.last()) {
        let d = s.drop_last();
        lemma_trim_end(d);
        assert(s.take(t.len() as int) =~= d.take(t.len() as int));
        let r = s.skip(t.len() as int);
        assert forall|i: int| 0 <= i < r.len() implies text::is_space(#[trigger] r[i]) by {
            if i < r.len() - 1 {
                assert(text::is_space(d.skip(t.len() as int)[i]));
            }
        }
    } else {
        assert(s.take(s.len() as int) =~= s);
    }
}

proof fn lemma_trim_start(s: Seq<char>)
    ensures
        ({
            let t = text::trim_start(s);
            let k = s.len() - t.len();
            &&& t.len() <= s.len() && s.skip(k) == t && blank(s.take(k))
            &&& t.len() > 0 ==> !text::is_space(t[0])
        }),
    decreases s.len(),
{
    let t = text::trim_start(s);
    if s.len() > 0 && text::is_space(s[0]) {
        let d = s.skip(1);
        lemma_trim_start(d);
        let k = s.len() - t.len();
        assert(s.skip(k) =~= d.skip(k - 1));
        let r = s.take(k);
        assert forall|i: int| 0 <= i < r.len() implies text::is_space(#[trigger] r[i]) by {
            if i > 0 {
                assert(text::is_space(d.take(k - 1)[i - 1]));
            }
        }
    } else {
        assert(s.skip(0) =~= s);
    }
}

/// Trimming takes the blanks off both ends and nothing else.
pub proof fn law_trim(s: Seq<char>)
    ensures
        exists|a: Seq<char>, b: Seq<char>|
            #![trigger blank(a), blank(b)]
            s == a + text::trim(s) + b && blank(a) && blank(b),
        text::trim(s).len() > 0 ==> !text::is_space(text::trim(s)[0]) && !text::is_space(
            text::trim(s).last(),
        ),
        text::is_space(' ') && text::is_space('\t') && text::is_space('\n') && text::is_space('\r'),
        !text::is_space('a') && !text::is_space('0') && !text::is_space('"'),
{
    let t = text::trim_start(s);
    let u = text::trim(s);
    lemma_trim_start(s);
    lemma_trim_end(t);
    let a = s.take(s.len() - t.len());
    let b = t.skip(u.len() as int);
    assert(s =~= a + t);
    assert(t =~= u + b);
    assert(s =~= a + u + b);
    assert(blank(a) && blank(b));
    if u.len() > 0 {
        assert(u[0] == t[0]);
    }
}

proof fn lemma_no_newline(a: Seq<char>, b: Seq<char>, i: int)
    requires
        0 <= i <= a.len(),
        forall|j: int| 0 <= j < a.len() ==> #[trigger] a[j] != '\n',
    ensures
        text::index_from(a + seq!['\n'] + b, '\n', i) == a.len(),
        text::index_from(a, '\n', i) == a.len(),
    decreases a.len() - i,
{
    let s = a + seq!['\n'] + b;
    if i < a.len() {
        assert(s[i] == a[i]);
        lemma_no_newline(a, b, i + 1);
    } else {
        assert(s[a.len() as int] == '\n');
    }
}

/// The lines of a text are what stands between line ends; a carriage return before one belongs to
/// it.
pub proof fn law_lines(a: Seq<char>, b: Seq<char>)
    requires
        forall|j: int| 0 <= j < a.len() ==> #[trigger] a[j] != '\n',
    ensures
        a.len() > 0 ==> text::lines(a) == seq![a],
        text::lines(Seq::empty()).len() == 0,
        a.len() == 0 || a.last() != '\r' ==> text::lines(a + seq!['\n'] + b) == seq![a]
            + text::lines(b),
        a.len() > 0 && a.last() == '\r' ==> text::lines(a + seq!['\n'] + b) == seq![a.drop_last()]
            + text::lines(b),
{
    lemma_no_newline(a, b, 0);
    let s = a + seq!['\n'] + b;
    assert(s.take(a.len() as int) =~= a);
    assert(s.skip(a.len() as int + 1) =~= b);
}

/// Plain letters have two forms, 32 apart; everything else that is plain has one.
pub proof fn law_letter_case(s: Seq<char>, i: int)
    requires
        text::all_ascii(s),
        0 <= i < s.len(),
    ensures
        text::upper(s).len() == s.len() && text::lower(s).len() == s.len(),
        97 <= s[i] as int <= 122 ==> text::upper(s)[i] as int == s[i] as int - 32,
        !(97 <= s[i] as int <= 122) ==> text::upper(s)[i] == s[i],
        65 <= s[i] as int <= 90 ==> text::lower(s)[i] as int == s[i] as int + 32,
        !(65 <= s[i] as int <= 90) ==> text::lower(s)[i] == s[i],
{
}

/// A text is cut to so many characters, if it has more.
pub proof fn law_clip(s: Seq<char>, n: int)
    requires
        n >= 0,
    ensures
        s.len() <= n ==> text::clip(s, n) == s,
        s.len() > n ==> text::clip(s, n).len() == n && text::clip(s, n) == s.take(n),
{
}

/// Texts are ordered as in a dictionary: by the first character that differs, and the shorter one
/// first if there is none.
pub proof fn law_order_of_texts(p: Seq<char>, a: Seq<char>, b: Seq<char>)
    requires
        a.len() > 0 && b.len() > 0 ==> a[0] != b[0],
    ensures
        order::text_before(p + a, p + b) <==> b.len() > 0 && (a.len() == 0 || (a[0] as int) < (
        b[0] as int)),
    decreases p.len(),
{
    if p.len() > 0 {
        law_order_of_texts(p.skip(1), a, b);
        assert((p + a).skip(1) =~= p.skip(1) + a);
        assert((p + b).skip(1) =~= p.skip(1) + b);
    } else {
        assert(p + a =~= a);
        assert(p + b =~= b);
    }
}

// ---------------------------------------------------------------------------
// Numbers as bytes
// ---------------------------------------------------------------------------

/// Numbers are written with the most significant byte first.
pub proof fn law_bytes_of_numbers(n: nat)
    ensures
        n < 65536 ==> wire::w16(n) == seq![(n / 256) as u8, (n % 256) as u8],
        n < 0x1_0000_0000 ==> wire::w32(n) == seq![
            (n / 0x100_0000) as u8,
            (n / 0x1_0000 % 256) as u8,
            (n / 0x100 % 256) as u8,
            (n % 256) as u8,
        ],
{
    reveal_with_fuel(wire::be, 5);
    if n < 65536 {
        assert(wire::w16(n) =~= seq![(n / 256) as u8, (n % 256) as u8]);
    }
    if n < 0x1_0000_0000 {
        assert(n / 256 / 256 == n / 0x1_0000);
        assert(n / 256 / 256 / 256 == n / 0x100_0000);
        assert(wire::w32(n) =~= seq![
            (n / 0x100_0000) as u8,
            (n / 0x1_0000 % 256) as u8,
            (n / 0x100 % 256) as u8,
            (n % 256) as u8,
        ]);
    }
}

/// A number of more bytes is that of its higher half, followed by that of its lower half; the first
/// byte is the most significant one.
pub proof fn law_wide_numbers(n: nat, k: nat, x: u8)
    ensures
        wire::be(256 * n + x as nat, k + 1) == wire::be(n, k).push(x),
        wire::be_nat(seq![x]) == x,
{
    assert((256 * n + x as nat) / 256 == n);
    assert((256 * n + x as nat) % 256 == x);
    assert(seq![x].drop_last().len() == 0);
    assert(wire::be_nat(seq![x].drop_last()) == 0);
}

// ---------------------------------------------------------------------------
// Base 64
// ---------------------------------------------------------------------------

/// The value of a character of base 64.
pub open spec fn sextet(c: char) -> int {
    let n = c as int;
    if 65 <= n <= 90 {
        n - 65
    } else if 97 <= n <= 122 {
        n - 97 + 26
    } else if 48 <= n <= 57 {
        n - 48 + 52
    } else if n == 43 {
        62
    } else {
        63
    }
}

/// Three bytes make four characters, each of which stands for six bits, the highest first; a rest of
/// one or two bytes is filled up with equals signs.
#[verifier::spinoff_prover]
#[verifier::rlimit(40)]
pub proof fn law_base64_groups(a: u8, b: u8, c: u8, rest: Seq<u8>)
    ensures
        ({
            let s = sha::base64(seq![a, b, c] + rest);
            &&& s.len() == 4 + sha::base64(rest).len() && s.skip(4) == sha::base64(rest)
            &&& sextet(s[0]) * 262144 + sextet(s[1]) * 4096 + sextet(s[2]) * 64 + sextet(s[3]) == a
                * 65536 + b * 256 + c
        }),
        ({
            let s = sha::base64(seq![a, b]);
            &&& s.len() == 4 && s[3] == '='
            &&& sextet(s[0]) * 4096 + sextet(s[1]) * 64 + sextet(s[2]) == (a * 256 + b) * 4
        }),
        ({
            let s = sha::base64(seq![a]);
            &&& s.len() == 4 && s[2] == '=' && s[3] == '='
            &&& sextet(s[0]) * 64 + sextet(s[1]) == a * 16
        }),
        sha::base64(Seq::empty()).len() == 0,
{
    let d = seq![a, b, c] + rest;
    assert(d.skip(3) =~= rest);
    assert(sha::base64(d).skip(4) =~= sha::base64(rest));
    assert(d[0] == a && d[1] == b && d[2] == c);
    lemma_sextets();
    lemma_group(a, b, c);
    lemma_group(a, b, 0);
    lemma_group(a, 0, 0);
}

/// Four groups of six bits make up three bytes.
proof fn lemma_group(a: u8, b: u8, c: u8)
    ensures
        ({
            let t = sha::triple(a, b, c);
            &&& 0 <= t / 262144 < 64
            &&& (t / 262144) * 262144 + ((t / 4096) % 64) * 4096 + ((t / 64) % 64) * 64 + t % 64 == t
            &&& c == 0 ==> (t / 262144) * 4096 + ((t / 4096) % 64) * 64 + (t / 64) % 64 == (a * 256
                + b) * 4
            &&& b == 0 && c == 0 ==> (t / 262144) * 64 + (t / 4096) % 64 == a * 16
        }),
{
    let t = sha::triple(a, b, c);
    let x = t / 64;
    let y = x / 64;
    assert(t / 4096 == y);
    assert(t / 262144 == y / 64);
}

proof fn lemma_sextets()
    ensures
        forall|d: int| 0 <= d < 64 ==> sextet(#[trigger] sha::b64_char(d)) == d,
{
}

// ---------------------------------------------------------------------------
// Addresses
// ---------------------------------------------------------------------------

/// True of text without this character.
pub open spec fn free_of(s: Seq<char>, c: char) -> bool {
    forall|i: int| 0 <= i < s.len() ==> #[trigger] s[i] != c
}

proof fn lemma_first(a: Seq<char>, c: char, b: Seq<char>, i: int)
    requires
        0 <= i <= a.len(),
        free_of(a, c),
    ensures
        text::index_from(a + seq![c] + b, c, i) == a.len(),
        text::index_from(a, c, i) == a.len(),
    decreases a.len() - i,
{
    let s = a + seq![c] + b;
    if i < a.len() {
        assert(s[i] == a[i]);
        lemma_first(a, c, b, i + 1);
    } else {
        assert(s[a.len() as int] == c);
    }
}

proof fn lemma_last(a: Seq<char>, c: char, b: Seq<char>, n: int)
    requires
        a.len() < n <= a.len() + 1 + b.len(),
        free_of(b, c),
    ensures
        io_words::last_index(a + seq![c] + b, c, n) == a.len(),
    decreases n,
{
    let s = a + seq![c] + b;
    if n > a.len() + 1 {
        assert(s[n - 1] == b[n - a.len() - 2]);
        lemma_last(a, c, b, n - 1);
    } else {
        assert(s[n - 1] == c);
    }
}

proof fn lemma_no_last(a: Seq<char>, c: char, n: int)
    requires
        0 <= n <= a.len(),
        free_of(a, c),
    ensures
        io_words::last_index(a, c, n) == -1,
    decreases n,
{
    if n > 0 {
        lemma_no_last(a, c, n - 1);
    }
}

proof fn lemma_dec_free(n: nat)
    ensures
        free_of(text::dec(n), ':'),
        free_of(text::dec(n), '/'),
{
    lemma_dec(n);
    let s = text::dec(n);
    assert forall|i: int| 0 <= i < s.len() implies #[trigger] s[i] != ':' && s[i] != '/' by {
        assert(text::is_digit(s[i]));
    }
}

/// An address names a host, maybe a port, and a path from the first slash on. Without a port it is
/// 80, and without a path it is a slash.
pub proof fn law_address_parts(host: Seq<char>, port: u16, path: Seq<char>)
    requires
        free_of(host, '/') && free_of(host, ':'),
    ensures
        ({
            let a = host + seq![':'] + text::dec(port as nat);
            let full = a + (seq!['/'] + path);
            let plain = host + (seq!['/'] + path);
            &&& io_words::authority(full) == a && io_words::path_of(full) == seq!['/'] + path
            &&& io_words::authority(a) == a && io_words::path_of(a) == "/"@
            &&& io_words::host_of(a) == host && io_words::port_of(a) == Some(port as int)
            &&& io_words::authority(plain) == host && io_words::path_of(plain) == seq!['/'] + path
            &&& io_words::host_of(host) == host && io_words::port_of(host) == Some(80int)
            &&& io_words::without_scheme("http://"@ + full) == full
        }),
{
    let d = text::dec(port as nat);
    let a = host + seq![':'] + d;
    let full = a + (seq!['/'] + path);
    let plain = host + (seq!['/'] + path);
    lemma_dec_free(port as nat);
    assert(free_of(a, '/')) by {
        assert forall|i: int| 0 <= i < a.len() implies #[trigger] a[i] != '/' by {
            if i < host.len() {
                assert(a[i] == host[i]);
            } else if i > host.len() {
                assert(a[i] == d[i - host.len() - 1]);
            }
        }
    }
    assert(full =~= a + seq!['/'] + path);
    assert(plain =~= host + seq!['/'] + path);
    lemma_first(a, '/', path, 0);
    lemma_first(host, '/', path, 0);
    assert(full.take(a.len() as int) =~= a);
    assert(full.skip(a.len() as int) =~= seq!['/'] + path);
    assert(plain.take(host.len() as int) =~= host);
    assert(plain.skip(host.len() as int) =~= seq!['/'] + path);
    assert(a.take(a.len() as int) =~= a);
    lemma_last(host, ':', d, a.len() as int);
    assert(a.take(host.len() as int) =~= host);
    assert(a.skip(host.len() as int + 1) =~= d);
    law_numbers_as_text(0, port as nat);
    lemma_no_last(host, ':', host.len() as int);
    let scheme = "http://"@;
    let url = scheme + full;
    assert(url.subrange(0, scheme.len() as int) =~= scheme);
    assert(url.skip(scheme.len() as int) =~= full);
}

/// The seeds of a unit are the addresses between commas, without blanks around them; an empty one is
/// none.
pub proof fn law_seeds_between_commas(a: Seq<char>, rest: Seq<char>)
    requires
        free_of(a, ','),
    ensures
        a.len() > 0 ==> cli::addresses(a) == seq![text::trim(a)],
        a.len() > 0 ==> cli::addresses(a + seq![','] + rest) == seq![text::trim(a)]
            + cli::addresses(rest),
        a.len() == 0 ==> cli::addresses(a + seq![','] + rest) == cli::addresses(rest),
        cli::addresses(Seq::empty()).len() == 0,
{
    lemma_first(a, ',', rest, 0);
    let s = a + seq![','] + rest;
    assert(s.take(a.len() as int) =~= a);
    assert(s.skip(a.len() as int + 1) =~= rest);
}

/// The head of an answer ends at the first empty line.
pub proof fn law_head_of_answer(d: Seq<u8>, e: int, i: int)
    requires
        0 <= i <= e,
        e + 4 <= d.len(),
        d[e] == 13 && d[e + 1] == 10 && d[e + 2] == 13 && d[e + 3] == 10,
        forall|j: int|
            i <= j < e ==> !(#[trigger] d[j] == 13 && d[j + 1] == 10 && d[j + 2] == 13 && d[j + 3]
                == 10),
    ensures
        io_words::head_end(d, i) == e,
    decreases e - i,
{
    if i < e {
        assert(!(d[i] == 13 && d[i + 1] == 10 && d[i + 2] == 13 && d[i + 3] == 10));
        law_head_of_answer(d, e, i + 1);
    }
}

proof fn lemma_past_word(s: Seq<char>, i: int, n: int)
    requires
        0 <= i <= n <= s.len(),
        forall|j: int| i <= j < n ==> !text::is_space(#[trigger] s[j]),
        n < s.len() ==> text::is_space(s[n]),
    ensures
        io_words::past_word(s, i) == n,
    decreases n - i,
{
    if i < n {
        lemma_past_word(s, i + 1, n);
    }
}

/// The status of an answer is the second word of its first line.
pub proof fn law_status_is_second_word(a: Seq<char>, b: Seq<char>, rest: Seq<char>)
    requires
        a.len() > 0 && b.len() > 0,
        forall|i: int| 0 <= i < a.len() ==> !text::is_space(#[trigger] a[i]),
        forall|i: int| 0 <= i < b.len() ==> !text::is_space(#[trigger] b[i]),
    ensures
        io_words::second_word(a + seq![' '] + b + seq![' '] + rest) == Some(b),
        io_words::second_word(a + seq![' '] + b) == Some(b),
        io_words::second_word(a).is_none(),
{
    let s = a + seq![' '] + b + seq![' '] + rest;
    let u = a + seq![' '] + b;
    let n = a.len() as int;
    let k = n + 1 + b.len();
    assert(forall|j: int| 0 <= j < n ==> #[trigger] s[j] == a[j]);
    assert(forall|j: int| 0 <= j < n ==> #[trigger] u[j] == a[j]);
    assert(forall|j: int| n < j < k ==> #[trigger] s[j] == b[j - n - 1]);
    assert(forall|j: int| n < j < k ==> #[trigger] u[j] == b[j - n - 1]);
    assert(s[n] == ' ' && u[n] == ' ' && s[k] == ' ');
    reveal_with_fuel(io_words::past_space, 3);
    lemma_past_word(s, 0, n);
    lemma_past_word(u, 0, n);
    lemma_past_word(a, 0, n);
    assert(s[n + 1] == b[0] && u[n + 1] == b[0]);
    assert(!text::is_space(s[n + 1]) && !text::is_space(u[n + 1]));
    assert(!text::is_space(s[0]) && !text::is_space(u[0]) && !text::is_space(a[0]));
    lemma_past_word(s, n + 1, k);
    lemma_past_word(u, n + 1, k);
    assert(s.subrange(n + 1, k) =~= b);
    assert(u.subrange(n + 1, k) =~= b);
}

// ---------------------------------------------------------------------------
// Options
// ---------------------------------------------------------------------------

/// What each option does: it sets one thing, with the argument behind it if it takes one, and the
/// next option follows.
pub proof fn law_options(args: Seq<Seq<char>>, i: int, a: cli::ArgsV)
    requires
        0 <= i,
        i + 1 < args.len(),
    ensures
        ({
            let next = cli::command_from(args, i, a);
            let value = args[i + 1];
            &&& args[i] == "--port"@ ==> next == cli::command_from(
                args,
                i + 2,
                cli::ArgsV { port: cli::port_in(Some(value)), ..a },
            )
            &&& args[i] == "--peers"@ ==> next == cli::command_from(
                args,
                i + 2,
                cli::ArgsV { peers: Some(value), ..a },
            )
            &&& args[i] == "--ws-port"@ ==> next == cli::command_from(
                args,
                i + 2,
                cli::ArgsV { ws_port: cli::port_in(Some(value)), ..a },
            )
            &&& args[i] == "--eval"@ ==> next == cli::command_from(
                args,
                i + 2,
                cli::ArgsV { eval_code: Some(value), ..a },
            )
            &&& args[i] == "--file"@ ==> next == cli::command_from(
                args,
                i + 2,
                cli::ArgsV { file_path: Some(value), ..a },
            )
            &&& args[i] == "--trust"@ ==> next == cli::command_from(
                args,
                i + 2,
                cli::ArgsV { trust: Some(value), ..a },
            )
            &&& args[i] == "--quiet"@ ==> next == cli::command_from(
                args,
                i + 1,
                cli::ArgsV { quiet: true, ..a },
            )
            &&& args[i] == "--no-mesh"@ ==> next == cli::command_from(
                args,
                i + 1,
                cli::ArgsV { no_mesh: true, ..a },
            )
            &&& args[i] == "--no-prelude"@ ==> next == cli::command_from(
                args,
                i + 1,
                cli::ArgsV { no_prelude: true, ..a },
            )
            &&& args[i] == "--swarm"@ ==> next == cli::command_from(
                args,
                i + 1,
                cli::ArgsV { swarm: true, ..a },
            )
            &&& args[i] == "--help"@ ==> next == cli::CommandV::Help
            &&& args[i] == "--version"@ ==> next == cli::CommandV::Version
        }),
{
    reveal_strlit("-h");
    reveal_strlit("--help");
    reveal_strlit("-v");
    reveal_strlit("--version");
    reveal_strlit("-q");
    reveal_strlit("--quiet");
    reveal_strlit("--port");
    reveal_strlit("--peers");
    reveal_strlit("--ws-port");
    reveal_strlit("--eval");
    reveal_strlit("--file");
    reveal_strlit("--no-mesh");
    reveal_strlit("--no-prelude");
    reveal_strlit("--swarm");
    reveal_strlit("--trust");
    lemma_option_names(args[i]);
}

proof fn lemma_option_names(o: Seq<char>)
    ensures
        o == "--port"@ ==> o.len() == 6 && o[3] == 'o',
        o == "--peers"@ ==> o.len() == 7 && o[2] == 'p',
        o == "--ws-port"@ ==> o.len() == 9 && o[2] == 'w',
        o == "--eval"@ ==> o.len() == 6 && o[3] == 'v',
        o == "--file"@ ==> o.len() == 6 && o[2] == 'f',
        o == "--trust"@ ==> o.len() == 7 && o[2] == 't',
        o == "--quiet"@ ==> o.len() == 7 && o[2] == 'q',
        o == "--no-mesh"@ ==> o.len() == 9 && o[2] == 'n',
        o == "--no-prelude"@ ==> o.len() == 12,
        o == "--swarm"@ ==> o.len() == 7 && o[2] == 's',
        o == "--help"@ ==> o.len() == 6 && o[2] == 'h',
        o == "--version"@ ==> o.len() == 9 && o[2] == 'v',
{
    reveal_strlit("--help");
    reveal_strlit("--version");
    reveal_strlit("--quiet");
    reveal_strlit("--port");
    reveal_strlit("--peers");
    reveal_strlit("--ws-port");
    reveal_strlit("--eval");
    reveal_strlit("--file");
    reveal_strlit("--no-mesh");
    reveal_strlit("--no-prelude");
    reveal_strlit("--swarm");
    reveal_strlit("--trust");
}

/// A port is a number from 0 to 65535 in decimal; anything else is none.
pub proof fn law_ports(n: nat)
    ensures
        n <= 65535 ==> cli::port_in(Some(text::dec(n))) == Some(n as u16),
        n > 65535 ==> cli::port_in(Some(text::dec(n))).is_none(),
        cli::port_in(None).is_none(),
{
    law_numbers_as_text(0, n);
}

/// The word that sets the level of trust which the command line names; other names set none.
pub proof fn law_trust_option(level: Seq<char>)
    ensures
        cli::trust_word_of("all"@) == Some("TRUST-ALL"@),
        cli::trust_word_of("mesh"@) == Some("TRUST-MESH"@),
        cli::trust_word_of("family"@) == Some("TRUST-FAMILY"@),
        cli::trust_word_of("none"@) == Some("TRUST-NONE"@),
        cli::trust_word_of(level).is_some() <==> level == "all"@ || level == "mesh"@ || level
            == "family"@ || level == "none"@,
{
    reveal_strlit("all");
    reveal_strlit("mesh");
    reveal_strlit("family");
    reveal_strlit("none");
    assert("mesh"@[0] != "none"@[0]);
    assert("all"@.len() != "mesh"@.len());
}

/// Without options nothing is asked for.
pub proof fn law_no_options(port: u16, env: Option<Seq<char>>)
    ensures
        ({
            let a = cli::no_options();
            &&& a.port.is_none() && a.peers.is_none() && a.ws_port.is_none()
            &&& a.eval_code.is_none() && a.file_path.is_none() && a.trust.is_none()
            &&& !a.no_mesh && !a.no_prelude && !a.swarm && !a.quiet
        }),
        cli::ws_port_asked(Some(port), env) == Some(port),
        cli::ws_port_asked(None, env) == cli::port_in(env),
{
}

/// A request names its page first, then its host; one that sends data tells how many bytes follow.
/// Either ends in an empty line.
pub proof fn law_request_heads(host: Seq<char>, path: Seq<char>, n: nat)
    ensures
        ({
            let g = io_words::get_request_text(host, path);
            let p = io_words::post_request_text(host, path, n);
            &&& ("GET "@ + path + " HTTP/1.1\r\nHost: "@ + host).is_prefix_of(g)
            &&& ("POST "@ + path + " HTTP/1.1\r\nHost: "@ + host
                + "\r\nConnection: close\r\nContent-Length: "@ + text::dec(n)).is_prefix_of(p)
            &&& g.skip(g.len() - 4) == seq!['\r', '\n', '\r', '\n']
            &&& p.skip(p.len() - 4) == seq!['\r', '\n', '\r', '\n']
        }),
{
    let g = io_words::get_request_text(host, path);
    let p = io_words::post_request_text(host, path, n);
    let a = "GET "@ + path + " HTTP/1.1\r\nHost: "@ + host;
    let b = "POST "@ + path + " HTTP/1.1\r\nHost: "@ + host
        + "\r\nConnection: close\r\nContent-Length: "@ + text::dec(n);
    reveal_strlit("\r\nConnection: close\r\nUser-Agent: unit/0.4.0\r\n\r\n");
    reveal_strlit("\r\nUser-Agent: unit/0.4.0\r\n\r\n");
    assert(a =~= g.subrange(0, a.len() as int));
    assert(b =~= p.subrange(0, b.len() as int));
    assert(g.skip(g.len() - 4) =~= seq!['\r', '\n', '\r', '\n']);
    assert(p.skip(p.len() - 4) =~= seq!['\r', '\n', '\r', '\n']);
}

} // verus!
