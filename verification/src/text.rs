//! Text: decimal and hexadecimal numerals, trimming, splitting and parsing.

use vstd::prelude::*;

verus! {

/// A character as text of length one.
pub open spec fn one(c: char) -> Seq<char> {
    seq![c]
}

/// The digit `d` (0 to 15) as a lower-case hexadecimal character.
pub open spec fn digit_char(d: int) -> char {
    if d < 10 {
        (48 + d) as char
    } else {
        (87 + d) as char
    }
}

/// The decimal numeral of a natural number, without leading zeros.
pub open spec fn dec(n: nat) -> Seq<char>
    decreases n,
{
    if n < 10 {
        one(digit_char(n as int))
    } else {
        dec(n / 10).push(digit_char((n % 10) as int))
    }
}

/// The decimal numeral of an integer, with a leading `-` if it is negative.
pub open spec fn dec_int(i: int) -> Seq<char> {
    if i < 0 {
        one('-') + dec((-i) as nat)
    } else {
        dec(i as nat)
    }
}

/// Two lower-case hexadecimal digits for each byte.
pub open spec fn hex(bytes: Seq<u8>) -> Seq<char>
    decreases bytes.len(),
{
    if bytes.len() == 0 {
        Seq::empty()
    } else {
        hex(bytes.drop_last()).push(digit_char(bytes.last() as int / 16)).push(
            digit_char(bytes.last() as int % 16),
        )
    }
}

/// `String::push` appends one character.
pub assume_specification[ String::push ](s: &mut String, c: char)
    ensures
        final(s)@ == old(s)@.push(c),
;

/// The digit character of `d`.
pub fn digit(d: u8) -> (c: char)
    requires
        d < 16,
    ensures
        c == digit_char(d as int),
{
    if d < 10 {
        (48 + d) as char
    } else {
        (87 + d) as char
    }
}

/// Appends the decimal numeral of `n`.
pub fn push_u64(s: &mut String, n: u64)
    ensures
        final(s)@ == old(s)@ + dec(n as nat),
    decreases n,
{
    if n >= 10 {
        push_u64(s, n / 10);
    }
    s.push(digit((n % 10) as u8));
    proof {
        reveal_with_fuel(dec, 2);
        assert(s@ =~= old(s)@ + dec(n as nat));
    }
}

/// Appends the decimal numeral of `n`.
pub fn push_usize(s: &mut String, n: usize)
    ensures
        final(s)@ == old(s)@ + dec(n as nat),
{
    push_u64(s, n as u64);
}

/// Appends the decimal numeral of `i`.
pub fn push_i64(s: &mut String, i: i64)
    ensures
        final(s)@ == old(s)@ + dec_int(i as int),
{
    if i < 0 {
        s.push('-');
        let n: u64 = if i == i64::MIN {
            9223372036854775808
        } else {
            (-i) as u64
        };
        push_u64(s, n);
        assert(s@ =~= old(s)@ + dec_int(i as int));
    } else {
        push_u64(s, i as u64);
    }
}

/// Appends two hexadecimal digits for each byte.
pub fn push_hex(s: &mut String, bytes: &[u8])
    ensures
        final(s)@ == old(s)@ + hex(bytes@),
{
    let mut i: usize = 0;
    while i < bytes.len()
        invariant
            i <= bytes.len(),
            s@ == old(s)@ + hex(bytes@.take(i as int)),
        decreases bytes.len() - i,
    {
        let b: u8 = bytes[i];
        s.push(digit(b / 16));
        s.push(digit(b % 16));
        i = i + 1;
        proof {
            assert(bytes@.take(i as int).drop_last() =~= bytes@.take(i - 1));
            assert(s@ =~= old(s)@ + hex(bytes@.take(i as int)));
        }
    }
    assert(bytes@.take(i as int) =~= bytes@);
}

/// The views of a sequence of strings.
pub open spec fn texts(v: Seq<String>) -> Seq<Seq<char>> {
    Seq::new(v.len(), |i: int| v[i]@)
}

/// The text of an optional string.
pub open spec fn opt_text(o: Option<String>) -> Option<Seq<char>> {
    match o {
        Some(s) => Some(s@),
        None => None,
    }
}

/// The first `n` characters of a text, or all of it if it is shorter.
pub open spec fn clip(s: Seq<char>, n: int) -> Seq<char> {
    if s.len() <= n {
        s
    } else {
        s.take(n)
    }
}

/// The characters of a string.
pub fn to_chars(s: &str) -> (v: Vec<char>)
    ensures
        v@ == s@,
{
    let mut v: Vec<char> = Vec::new();
    for c in it: s.chars()
        invariant
            v@ == it.seq().take(it.index() as int),
            it.seq() == s@,
    {
        v.push(c);
        assert(it.seq().take(it.index() + 1) =~= it.seq().take(it.index() as int).push(c));
    }
    assert(s@.take(s@.len() as int) =~= s@);
    v
}

/// Appends the characters `v[from..to]`.
pub fn push_chars(s: &mut String, v: &[char], from: usize, to: usize)
    requires
        from <= to <= v@.len(),
    ensures
        final(s)@ == old(s)@ + v@.subrange(from as int, to as int),
{
    let mut i: usize = from;
    assert(s@ =~= old(s)@ + v@.subrange(from as int, i as int));
    while i < to
        invariant
            from <= i <= to <= v@.len(),
            s@ == old(s)@ + v@.subrange(from as int, i as int),
        decreases to - i,
    {
        s.push(v[i]);
        i = i + 1;
        assert(s@ =~= old(s)@ + v@.subrange(from as int, i as int));
    }
}

/// The string of the characters `v[from..to]`.
pub fn from_chars(v: &[char], from: usize, to: usize) -> (s: String)
    requires
        from <= to <= v@.len(),
    ensures
        s@ == v@.subrange(from as int, to as int),
{
    let mut s = String::new();
    push_chars(&mut s, v, from, to);
    assert(s@ =~= v@.subrange(from as int, to as int));
    s
}

/// The first `n` characters of `s`.
pub fn take_chars(s: &str, n: usize) -> (r: String)
    ensures
        r@ == clip(s@, n as int),
{
    let v = to_chars(s);
    let m: usize = if v.len() <= n {
        v.len()
    } else {
        n
    };
    let r = from_chars(&v, 0, m);
    assert(v@.subrange(0, m as int) =~= clip(s@, n as int));
    r
}

/// A copy of a string slice.
pub fn text(s: &str) -> (r: String)
    ensures
        r@ == s@,
{
    s.to_owned()
}

/// The upper-case form that `str::to_uppercase` gives of a text that is not all ASCII.
pub uninterp spec fn unicode_upper(s: Seq<char>) -> Seq<char>;

/// The upper-case letter of an ASCII letter; any other character unchanged.
pub open spec fn ascii_upper(c: char) -> char {
    if 'a' <= c && c <= 'z' {
        (c as int - 32) as char
    } else {
        c
    }
}

/// True of a text whose characters are all ASCII.
pub open spec fn all_ascii(s: Seq<char>) -> bool {
    forall|i: int| 0 <= i < s.len() ==> (#[trigger] s[i]) as int <= 127
}

/// A text in upper case.
pub open spec fn upper(s: Seq<char>) -> Seq<char> {
    if all_ascii(s) {
        Seq::new(s.len(), |i: int| ascii_upper(s[i]))
    } else {
        unicode_upper(s)
    }
}

/// Calls `str::to_uppercase`. On an ASCII text it replaces each of the letters `a` to `z` and keeps
/// every other character; of another text the result depends on the text alone.
#[verifier::external_body]
pub(crate) fn to_upper(s: &str) -> (r: String)
    ensures
        all_ascii(s@) ==> r@ == Seq::new(s@.len(), |i: int| ascii_upper(s@[i])),
        !all_ascii(s@) ==> r@ == unicode_upper(s@),
{
    s.to_uppercase()
}

/// The lower-case form that `str::to_lowercase` gives of a text that is not all ASCII.
pub uninterp spec fn unicode_lower(s: Seq<char>) -> Seq<char>;

/// The lower-case letter of an ASCII letter; any other character unchanged.
pub open spec fn ascii_lower(c: char) -> char {
    if 'A' <= c && c <= 'Z' {
        (c as int + 32) as char
    } else {
        c
    }
}

/// A text in lower case.
pub open spec fn lower(s: Seq<char>) -> Seq<char> {
    if all_ascii(s) {
        Seq::new(s.len(), |i: int| ascii_lower(s[i]))
    } else {
        unicode_lower(s)
    }
}

/// Calls `str::to_lowercase`. On an ASCII text it replaces each of the letters `A` to `Z` and keeps
/// every other character; of another text the result depends on the text alone.
#[verifier::external_body]
pub(crate) fn to_lower(s: &str) -> (r: String)
    ensures
        all_ascii(s@) ==> r@ == Seq::new(s@.len(), |i: int| ascii_lower(s@[i])),
        !all_ascii(s@) ==> r@ == unicode_lower(s@),
{
    s.to_lowercase()
}

/// The characters with the Unicode property `White_Space`.
pub open spec fn is_space(c: char) -> bool {
    ||| 9 <= c as int <= 13
    ||| c as int == 32
    ||| c as int == 0x85
    ||| c as int == 0xA0
    ||| c as int == 0x1680
    ||| 0x2000 <= c as int <= 0x200A
    ||| c as int == 0x2028
    ||| c as int == 0x2029
    ||| c as int == 0x202F
    ||| c as int == 0x205F
    ||| c as int == 0x3000
}

/// Tests for white space.
pub fn char_is_space(c: char) -> (b: bool)
    ensures
        b == is_space(c),
{
    let n: u32 = c as u32;
    (9 <= n && n <= 13) || n == 32 || n == 0x85 || n == 0xA0 || n == 0x1680 || (0x2000 <= n && n
        <= 0x200A) || n == 0x2028 || n == 0x2029 || n == 0x202F || n == 0x205F || n == 0x3000
}

/// A text without the white space at its end.
pub open spec fn trim_end(s: Seq<char>) -> Seq<char>
    decreases s.len(),
{
    if s.len() > 0 && is_space(s.last()) {
        trim_end(s.drop_last())
    } else {
        s
    }
}

/// A text without the white space at its start.
pub open spec fn trim_start(s: Seq<char>) -> Seq<char>
    decreases s.len(),
{
    if s.len() > 0 && is_space(s[0]) {
        trim_start(s.skip(1))
    } else {
        s
    }
}

/// A text without the white space at its ends.
pub open spec fn trim(s: Seq<char>) -> Seq<char> {
    trim_end(trim_start(s))
}

/// The position after the last character of `v[from..]` that is no white space.
fn end_of_text(v: &[char], from: usize) -> (e: usize)
    requires
        from <= v@.len(),
    ensures
        from <= e <= v@.len(),
        v@.subrange(from as int, e as int) == trim_end(v@.subrange(from as int, v@.len() as int)),
{
    let mut e: usize = v.len();
    while e > from && char_is_space(v[e - 1])
        invariant
            from <= e <= v@.len(),
            trim_end(v@.subrange(from as int, e as int)) == trim_end(
                v@.subrange(from as int, v@.len() as int),
            ),
        decreases e,
    {
        proof {
            let t = v@.subrange(from as int, e as int);
            assert(t.drop_last() =~= v@.subrange(from as int, e - 1));
        }
        e = e - 1;
    }
    e
}

/// `s` without the white space at its end.
pub fn trimmed_end(s: &str) -> (r: String)
    ensures
        r@ == trim_end(s@),
{
    let v = to_chars(s);
    let e = end_of_text(&v, 0);
    assert(v@.subrange(0, v@.len() as int) =~= s@);
    from_chars(&v, 0, e)
}

/// The characters `v[from..]` without the white space at their ends.
pub fn trimmed_from(v: &[char], from: usize) -> (r: String)
    requires
        from <= v@.len(),
    ensures
        r@ == trim(v@.subrange(from as int, v@.len() as int)),
{
    let mut i: usize = from;
    while i < v.len() && char_is_space(v[i])
        invariant
            from <= i <= v@.len(),
            trim_start(v@.subrange(i as int, v@.len() as int)) == trim_start(
                v@.subrange(from as int, v@.len() as int),
            ),
        decreases v@.len() - i,
    {
        proof {
            let t = v@.subrange(i as int, v@.len() as int);
            assert(t.skip(1) =~= v@.subrange(i + 1, v@.len() as int));
        }
        i = i + 1;
    }
    let e = end_of_text(v, i);
    from_chars(v, i, e)
}

/// `s` without the white space at its ends.
pub fn trimmed(s: &str) -> (r: String)
    ensures
        r@ == trim(s@),
{
    let v = to_chars(s);
    assert(v@.subrange(0, v@.len() as int) =~= s@);
    trimmed_from(&v, 0)
}

/// The first position from `i` on that holds `c`, or the length if there is none.
pub open spec fn index_from(s: Seq<char>, c: char, i: int) -> int
    decreases s.len() - i,
{
    if i >= s.len() {
        s.len() as int
    } else if s[i] == c {
        i
    } else {
        index_from(s, c, i + 1)
    }
}

/// What `index_from` gives is the first such position.
pub proof fn lemma_index_from(s: Seq<char>, c: char, i: int)
    requires
        0 <= i <= s.len(),
    ensures
        i <= index_from(s, c, i) <= s.len(),
        index_from(s, c, i) < s.len() ==> s[index_from(s, c, i)] == c,
        forall|j: int| i <= j < index_from(s, c, i) ==> s[j] != c,
    decreases s.len() - i,
{
    if i < s.len() && s[i] != c {
        lemma_index_from(s, c, i + 1);
    }
}

/// The first position from `from` on that holds `c`, or the length.
pub fn position_from(v: &[char], c: char, from: usize) -> (r: usize)
    requires
        from <= v@.len(),
    ensures
        r == index_from(v@, c, from as int),
        from <= r <= v@.len(),
{
    let mut i: usize = from;
    while i < v.len() && v[i] != c
        invariant
            from <= i <= v@.len(),
            index_from(v@, c, i as int) == index_from(v@, c, from as int),
        decreases v@.len() - i,
    {
        i = i + 1;
    }
    i
}

/// A line without the carriage return before its line feed.
pub open spec fn strip_cr(s: Seq<char>) -> Seq<char> {
    if s.len() > 0 && s.last() == '\r' {
        s.drop_last()
    } else {
        s
    }
}

/// The lines of a text: each ends at a line feed, with the carriage return before it, if any, and
/// the last one at the end of the text.
pub open spec fn lines(s: Seq<char>) -> Seq<Seq<char>>
    decreases s.len(),
{
    if s.len() == 0 {
        Seq::empty()
    } else {
        let i = index_from(s, '\n', 0);
        if i >= s.len() {
            seq![s]
        } else if i < 0 {
            Seq::empty()
        } else {
            seq![strip_cr(s.take(i))] + lines(s.skip(i + 1))
        }
    }
}

proof fn lemma_index_skip(s: Seq<char>, c: char, k: int, i: int)
    requires
        0 <= k,
        0 <= i,
        k + i <= s.len(),
    ensures
        index_from(s.skip(k), c, i) + k == index_from(s, c, k + i),
    decreases s.len() - k - i,
{
    if k + i < s.len() && s[k + i] != c {
        lemma_index_skip(s, c, k, i + 1);
    }
}

/// The lines of `s`.
pub fn split_lines(s: &str) -> (r: Vec<String>)
    ensures
        texts(r@) == lines(s@),
{
    let v = to_chars(s);
    let mut r: Vec<String> = Vec::new();
    let mut start: usize = 0;
    assert(v@.skip(0) =~= s@);
    assert(texts(r@) + lines(s@) =~= lines(s@));
    while start < v.len()
        invariant
            v@ == s@,
            start <= v@.len(),
            texts(r@) + lines(v@.skip(start as int)) == lines(s@),
        decreases v@.len() - start,
    {
        let e = position_from(&v, '\n', start);
        let ghost rest = v@.skip(start as int);
        let ghost before = texts(r@);
        proof {
            lemma_index_skip(v@, '\n', start as int, 0);
        }
        if e >= v.len() {
            let line = from_chars(&v, start, e);
            assert(line@ =~= rest);
            r.push(line);
            proof {
                assert(texts(r@) =~= before.push(rest));
                assert(lines(v@.skip(v@.len() as int)) =~= Seq::<Seq<char>>::empty());
                assert(texts(r@) + lines(v@.skip(v@.len() as int)) =~= before + lines(rest));
            }
            start = v.len();
        } else {
            let stop: usize = if e > start && v[e - 1] == '\r' {
                e - 1
            } else {
                e
            };
            let line = from_chars(&v, start, stop);
            proof {
                assert(line@ =~= strip_cr(rest.take(e - start)));
                assert(rest.skip(e - start + 1) =~= v@.skip(e + 1));
            }
            r.push(line);
            proof {
                assert(texts(r@) =~= before.push(line@));
                assert(texts(r@) + lines(v@.skip(e + 1)) =~= before + lines(rest));
            }
            start = e + 1;
        }
    }
    proof {
        assert(v@.skip(start as int).len() == 0);
        assert(lines(v@.skip(start as int)) =~= Seq::<Seq<char>>::empty());
        assert(texts(r@) =~= lines(s@));
    }
    r
}

/// True of the characters `0` to `9`.
pub open spec fn is_digit(c: char) -> bool {
    '0' <= c && c <= '9'
}

/// True of a text made of decimal digits, at least one.
pub open spec fn is_numeral(s: Seq<char>) -> bool {
    s.len() > 0 && forall|i: int| 0 <= i < s.len() ==> is_digit(#[trigger] s[i])
}

/// The number that a row of decimal digits stands for.
pub open spec fn value(s: Seq<char>) -> int
    decreases s.len(),
{
    if s.len() == 0 {
        0
    } else {
        value(s.drop_last()) * 10 + (s.last() as int - 48)
    }
}

/// The integer that a text stands for: an optional sign, then decimal digits.
pub open spec fn parse_int(s: Seq<char>) -> Option<int> {
    if s.len() > 0 && s[0] == '-' && is_numeral(s.skip(1)) {
        Some(-value(s.skip(1)))
    } else if s.len() > 0 && s[0] == '+' && is_numeral(s.skip(1)) {
        Some(value(s.skip(1)))
    } else if is_numeral(s) {
        Some(value(s))
    } else {
        None
    }
}

/// The natural number that a text stands for: an optional `+`, then decimal digits.
pub open spec fn parse_nat(s: Seq<char>) -> Option<int> {
    if s.len() > 0 && s[0] == '-' {
        None
    } else {
        parse_int(s)
    }
}

/// An integer, if it lies in the given range.
pub open spec fn in_range(o: Option<int>, low: int, high: int) -> Option<int> {
    match o {
        Some(i) => if low <= i <= high {
            Some(i)
        } else {
            None
        },
        None => None,
    }
}

/// What a row of digits from `from` on stands for.
#[derive(Clone, Copy, PartialEq, Eq, Structural)]
enum Digits {
    /// Not a row of digits.
    Bad,
    /// More than 64 bits hold.
    Large,
    /// This number.
    Value(u64),
}

fn digits_from(v: &[char], from: usize) -> (r: Digits)
    requires
        from <= v@.len(),
    ensures
        match r {
            Digits::Bad => !is_numeral(v@.skip(from as int)),
            Digits::Large => is_numeral(v@.skip(from as int)) && value(v@.skip(from as int))
                > u64::MAX,
            Digits::Value(n) => is_numeral(v@.skip(from as int)) && value(v@.skip(from as int))
                == n,
        },
{
    let ghost t = v@.skip(from as int);
    if from == v.len() {
        return Digits::Bad;
    }
    let mut acc: u64 = 0;
    let mut large: bool = false;
    let mut i: usize = from;
    while i < v.len()
        invariant
            from <= i <= v@.len(),
            t == v@.skip(from as int),
            forall|j: int| 0 <= j < i - from ==> is_digit(#[trigger] t[j]),
            large ==> value(t.take(i - from)) > u64::MAX,
            !large ==> value(t.take(i - from)) == acc,
        decreases v@.len() - i,
    {
        let c: char = v[i];
        assert(t[i - from] == c);
        if !('0' <= c && c <= '9') {
            assert(!is_digit(t[i - from]));
            return Digits::Bad;
        }
        let d: u64 = (c as u32 - 48) as u64;
        proof {
            assert(t.take(i - from + 1).drop_last() =~= t.take(i - from));
            assert(t.take(i - from + 1).last() == c);
        }
        if !large {
            if acc > (u64::MAX - d) / 10 {
                large = true;
            } else {
                acc = acc * 10 + d;
            }
        }
        i = i + 1;
    }
    assert(t.take(i - from) =~= t);
    if large {
        Digits::Large
    } else {
        Digits::Value(acc)
    }
}

/// Parses a decimal integer: the value, if the text is one and it fits in 64 bits.
pub fn parse_i64(s: &str) -> (r: Option<i64>)
    ensures
        r.is_some() == in_range(parse_int(s@), i64::MIN as int, i64::MAX as int).is_some(),
        r matches Some(n) ==> parse_int(s@) == Some(n as int),
{
    let v = to_chars(s);
    if v.len() == 0 {
        return None;
    }
    assert(s@.skip(0) =~= s@);
    let c: char = v[0];
    let signed: bool = c == '-' || c == '+';
    let d = digits_from(&v, if signed { 1 } else { 0 });
    assert(signed ==> !is_digit(s@[0]));
    match d {
        Digits::Value(n) => {
            if c == '-' {
                if n < 9223372036854775808 {
                    Some(-(n as i64))
                } else if n == 9223372036854775808 {
                    Some(i64::MIN)
                } else {
                    None
                }
            } else if n <= 9223372036854775807 {
                Some(n as i64)
            } else {
                None
            }
        },
        _ => None,
    }
}

/// Parses a natural number not above `max`.
pub fn parse_u64(s: &str, max: u64) -> (r: Option<u64>)
    ensures
        r.is_some() == in_range(parse_nat(s@), 0, max as int).is_some(),
        r matches Some(n) ==> parse_nat(s@) == Some(n as int),
{
    let v = to_chars(s);
    if v.len() == 0 {
        return None;
    }
    assert(s@.skip(0) =~= s@);
    let c: char = v[0];
    if c == '-' {
        return None;
    }
    let d = digits_from(&v, if c == '+' { 1 } else { 0 });
    assert(c == '+' ==> !is_digit(s@[0]));
    match d {
        Digits::Value(n) => if n <= max {
            Some(n)
        } else {
            None
        },
        _ => None,
    }
}

/// True if `p` stands in `s` at position `i`.
pub open spec fn occurs_at(s: Seq<char>, p: Seq<char>, i: int) -> bool {
    0 <= i && i + p.len() <= s.len() && s.subrange(i, i + p.len()) == p
}

/// The first position from `i` on at which `p` stands in `s`.
pub open spec fn find_from(s: Seq<char>, p: Seq<char>, i: int) -> Option<int>
    decreases s.len() + 1 - i,
{
    if i < 0 || i + p.len() > s.len() {
        None
    } else if occurs_at(s, p, i) {
        Some(i)
    } else {
        find_from(s, p, i + 1)
    }
}

/// What `find_from` gives is the first such position, and it gives one if there is one.
pub proof fn lemma_find_from(s: Seq<char>, p: Seq<char>, i: int)
    requires
        0 <= i,
    ensures
        match find_from(s, p, i) {
            Some(k) => i <= k && occurs_at(s, p, k) && forall|j: int|
                i <= j < k ==> !occurs_at(s, p, j),
            None => forall|j: int| i <= j ==> !occurs_at(s, p, j),
        },
    decreases s.len() + 1 - i,
{
    if i + p.len() <= s.len() && !occurs_at(s, p, i) {
        lemma_find_from(s, p, i + 1);
    }
}

/// Tests whether `p` stands in `v` at position `i`.
fn stands_at(v: &[char], p: &[char], i: usize) -> (b: bool)
    requires
        i + p@.len() <= v@.len(),
    ensures
        b == occurs_at(v@, p@, i as int),
{
    let n: usize = v.len();
    let mut k: usize = 0;
    while k < p.len()
        invariant
            k <= p@.len(),
            n == v@.len(),
            i + p@.len() <= n,
            forall|j: int| 0 <= j < k ==> v@[i + j] == p@[j],
        decreases p@.len() - k,
    {
        if v[i + k] != p[k] {
            assert(v@.subrange(i as int, i + p@.len())[k as int] != p@[k as int]);
            return false;
        }
        k = k + 1;
    }
    assert(v@.subrange(i as int, i + p@.len()) =~= p@);
    true
}

/// The first position from `from` on at which `p` stands in `v`.
pub fn find_text(v: &[char], p: &[char], from: usize) -> (r: Option<usize>)
    requires
        from <= v@.len(),
    ensures
        match r {
            Some(k) => find_from(v@, p@, from as int) == Some(k as int) && occurs_at(
                v@,
                p@,
                k as int,
            ) && from <= k,
            None => find_from(v@, p@, from as int).is_none(),
        },
{
    let mut i: usize = from;
    while i <= v.len() && p.len() <= v.len() - i
        invariant
            from <= i,
            i <= v@.len() + 1,
            find_from(v@, p@, i as int) == find_from(v@, p@, from as int),
        decreases v@.len() + 1 - i,
    {
        if stands_at(v, p, i) {
            return Some(i);
        }
        if i == v.len() {
            assert(v@.subrange(i as int, i + p@.len()) =~= p@);
            return None;
        }
        i = i + 1;
    }
    None
}

/// True if `p` stands anywhere in `s`.
pub open spec fn holds(s: Seq<char>, p: Seq<char>) -> bool {
    find_from(s, p, 0).is_some()
}

/// Tests whether `p` stands anywhere in `s`.
pub fn contains_text(s: &str, p: &str) -> (b: bool)
    ensures
        b == holds(s@, p@),
{
    let v = to_chars(s);
    let w = to_chars(p);
    find_text(&v, &w, 0).is_some()
}

/// True if `s` begins with `p`.
pub open spec fn begins(s: Seq<char>, p: Seq<char>) -> bool {
    occurs_at(s, p, 0)
}

/// Tests whether `s` begins with `p`.
pub fn begins_with(s: &str, p: &str) -> (b: bool)
    ensures
        b == begins(s@, p@),
{
    let v = to_chars(s);
    let w = to_chars(p);
    w.len() <= v.len() && stands_at(&v, &w, 0)
}

/// Compares two texts.
pub fn same_text(a: &str, b: &str) -> (r: bool)
    ensures
        r == (a@ == b@),
{
    let v = to_chars(a);
    let w = to_chars(b);
    if v.len() != w.len() {
        return false;
    }
    let r = stands_at(&v, &w, 0);
    assert(v@.subrange(0, w@.len() as int) =~= v@);
    r
}

} // verus!
