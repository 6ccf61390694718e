//! What words take from the line, and what a machine does between two lines.

use crate::mesh::node::MeshV;
use crate::text;
use crate::types::{Op, WordV};
use crate::vm::base;
use crate::vm::bridge;
use crate::vm::checks;
use crate::vm::compile;
use crate::vm::family;
use crate::vm::net;
use crate::vm::sandbox;
use crate::vm::state::{FrameV, Time, VmV};
use crate::vm::ticks;
use crate::vm::trials;
use crate::vm::words;
use vstd::prelude::*;

verus! {

// ---------------------------------------------------------------------------
// The line
// ---------------------------------------------------------------------------

/// A machine that has read a line up to one of its words.
pub open spec fn at_line(v: VmV, before: Seq<char>, after: Seq<char>) -> VmV {
    VmV { input: before + after, pos: before.len() as usize, ..v }
}

proof fn lemma_index(s: Seq<char>, c: char, i: int, n: int)
    requires
        0 <= i <= n <= s.len(),
        forall|j: int| i <= j < n ==> #[trigger] s[j] != c,
        n < s.len() ==> s[n] == c,
    ensures
        text::index_from(s, c, i) == n,
    decreases n - i,
{
    if i < n {
        lemma_index(s, c, i + 1, n);
    }
}

/// A text up to a character starts behind one space and ends before that character, which is passed
/// over; without it the text goes to the end of the line.
pub proof fn law_text_up_to(v: VmV, before: Seq<char>, s: Seq<char>, c: char, rest: Seq<char>)
    requires
        before.len() + s.len() + rest.len() + 2 <= 0x7FFF_FFFF,
        forall|i: int| 0 <= i < s.len() ==> #[trigger] s[i] != c,
    ensures
        ({
            let w = base::parsed(at_line(v, before, seq![' '] + s + seq![c] + rest), c);
            &&& w.0 == s
            &&& w.1.pos == before.len() + 1 + s.len() + 1
            &&& w.1.stack == v.stack && w.1.dict == v.dict && w.1.def == v.def
        }),
        ({
            let w = base::parsed(at_line(v, before, seq![' '] + s), c);
            &&& w.0 == s
            &&& w.1.pos == before.len() + 1 + s.len()
        }),
{
    reveal(base::parsed);
    let x = before + (seq![' '] + s + seq![c] + rest);
    let y = before + (seq![' '] + s);
    let a = before.len() + 1;
    let n = a + s.len();
    assert(x[before.len() as int] == ' ' && y[before.len() as int] == ' ');
    assert forall|j: int| a <= j < n implies #[trigger] x[j] != c by {
        assert(x[j] == s[j - a]);
    }
    assert forall|j: int| a <= j < n implies #[trigger] y[j] != c by {
        assert(y[j] == s[j - a]);
    }
    assert(x[n as int] == c);
    lemma_index(x, c, a as int, n as int);
    lemma_index(y, c, a as int, n as int);
    assert(x.subrange(a as int, n as int) =~= s);
    assert(y.subrange(a as int, n as int) =~= s);
}

/// By how many the opening braces exceed the closing ones between two places.
pub open spec fn open_braces(s: Seq<char>, from: int, to: int) -> int
    decreases to - from,
{
    if to <= from {
        0
    } else {
        open_braces(s, from, to - 1) + (if s[to - 1] == '{' {
            1int
        } else if s[to - 1] == '}' {
            -1
        } else {
            0
        })
    }
}

proof fn lemma_open_braces(s: Seq<char>, from: int, to: int)
    requires
        from < to,
    ensures
        open_braces(s, from, to) == open_braces(s, from + 1, to) + (if s[from] == '{' {
            1int
        } else if s[from] == '}' {
            -1
        } else {
            0
        }),
    decreases to - from,
{
    reveal_with_fuel(open_braces, 2);
    if from + 1 < to {
        lemma_open_braces(s, from, to - 1);
    }
}

/// A text in braces ends at the first brace that closes more than was opened.
pub proof fn law_braces_match(s: Seq<char>, from: int, depth: int)
    requires
        0 <= from <= s.len(),
        depth >= 1,
    ensures
        ({
            let e = base::brace_end(s, from, depth);
            &&& from <= e <= s.len()
            &&& e < s.len() ==> s[e] == '}' && depth + open_braces(s, from, e) == 1
            &&& forall|i: int|
                from <= i < e ==> depth + #[trigger] open_braces(s, from, i + 1) >= 1
        }),
    decreases s.len() - from,
{
    if from < s.len() && !(s[from] == '}' && depth == 1) {
        let d = if s[from] == '{' {
            depth + 1
        } else if s[from] == '}' {
            depth - 1
        } else {
            depth
        };
        law_braces_match(s, from + 1, d);
        let e = base::brace_end(s, from + 1, d);
        lemma_open_braces(s, from, e);
        assert forall|i: int| from <= i < e implies depth + #[trigger] open_braces(s, from, i + 1)
            >= 1 by {
            lemma_open_braces(s, from, i + 1);
            if i > from {
                assert(d + open_braces(s, from + 1, i + 1) >= 1);
            } else {
                assert(open_braces(s, from + 1, from + 1) == 0);
            }
        }
    }
}

/// The words for output and comments: what stands in quotes is put out, or compiled to be put out;
/// what stands in brackets, or behind a backslash, is passed over.
pub proof fn law_quotes_and_comments(v: VmV, before: Seq<char>, s: Seq<char>, rest: Seq<char>)
    requires
        before.len() + s.len() + rest.len() + 2 <= 0x7FFF_FFFF,
        v.output == Some(Seq::<char>::empty()),
        forall|i: int| 0 <= i < s.len() ==> #[trigger] s[i] != '"' && s[i] != ')',
    ensures
        ({
            let w = compile::p_dot_quote(at_line(v, before, seq![' '] + s + seq!['"'] + rest));
            &&& w.stack == v.stack
            &&& !v.compiling ==> w.output == Some(s) && w.def == v.def
            &&& v.compiling ==> w.output == v.output
            &&& v.compiling ==> (v.def matches Some(d) ==> w.def.is_some() && w.def->0.body
                == d.body.push(Op::StringLit(s)))
        }),
        ({
            let w = compile::p_paren(at_line(v, before, seq![' '] + s + seq![')'] + rest));
            &&& w.output == v.output && w.stack == v.stack && w.def == v.def
            &&& w.pos == before.len() + 1 + s.len() + 1
        }),
        ({
            let w = compile::p_backslash(at_line(v, before, rest));
            w == (VmV {
                pos: (before.len() + rest.len()) as usize,
                ..at_line(v, before, rest)
            })
        }),
{
    reveal(compile::p_dot_quote);
    reveal(compile::p_paren);
    reveal(compile::p_backslash);
    reveal(base::compiled);
    reveal(base::emit);
    assert(forall|i: int| 0 <= i < s.len() ==> #[trigger] s[i] != '"');
    assert(forall|i: int| 0 <= i < s.len() ==> #[trigger] s[i] != ')');
    law_text_up_to(v, before, s, '"', rest);
    law_text_up_to(v, before, s, ')', rest);
    lemma_parsed_only_moves(at_line(v, before, seq![' '] + s + seq!['"'] + rest), '"');
    lemma_parsed_only_moves(at_line(v, before, seq![' '] + s + seq![')'] + rest), ')');
    assert(Seq::<char>::empty() + s =~= s);
}

proof fn lemma_parsed_only_moves(v: VmV, c: char)
    ensures
        base::parsed(v, c).1 == (VmV { pos: base::parsed(v, c).1.pos, ..v }),
{
    reveal(base::parsed);
}

/// RECURSE compiles a call of the word that is being defined.
pub proof fn law_recurse(v: VmV)
    requires
        v.def.is_some(),
        v.dict.len() <= 0x7FFF_FFFF,
    ensures
        compile::p_recurse(v).def.is_some(),
        compile::p_recurse(v).def->0.body == v.def->0.body.push(Op::Call(v.dict.len() as usize)),
        compile::p_recurse(v).dict == v.dict,
{
    reveal(compile::p_recurse);
    reveal(base::compiled);
}

// ---------------------------------------------------------------------------
// Between two lines
// ---------------------------------------------------------------------------

/// Between two lines a machine claims work, proposes replication, evolves, looks for packages, checks
/// what it watches, takes in words, takes in what browsers sent, and shows its state, in this order.
pub proof fn law_order_of_work(v: VmV, t: Time)
    ensures
        ({
            let w = |k: u8| VmV { frames: v.frames.push(FrameV::Tick { stage: k }), ..v };
            &&& ticks::ticked(v, 0, t) == sandbox::claim_checked(w(1), t)
            &&& ticks::ticked(v, 1, t) == ticks::replicate_checked(w(2), t)
            &&& ticks::ticked(v, 2, t) == trials::evolve_checked(w(3), t)
            &&& ticks::ticked(v, 3, t) == family::incoming_checked(w(4))
            &&& ticks::ticked(v, 4, t) == checks::monitor_ticked(w(5), t)
            &&& ticks::ticked(v, 5, t) == ticks::words_received(w(6))
            &&& ticks::ticked(v, 6, t) == bridge::events_polled(w(7), t)
            &&& ticks::ticked(v, 7, t) == bridge::json_updated(w(8))
            &&& ticks::ticked(v, 8, t) == v
        }),
{
    reveal(ticks::ticked);
    reveal(base::framed);
}

/// Replication that is needed is proposed, once: whether or not it is refused, it is not needed any
/// more, and the load of the node is the number of its words. Where it is not needed, nothing is
/// done.
pub proof fn law_needed_replication_is_proposed(v: VmV, m: MeshV, t: Time)
    requires
        v.mesh == Some(m),
        v.dict.len() <= 0x7FFF_FFFF,
    ensures
        ({
            let w = ticks::replicate_checked(v, t);
            let k = MeshV { replicate_needed: false, load: v.dict.len() as u32, ..m };
            let bytes = crate::mesh::state::w_state(v.dict, v.memory, v.here, Some(m.goals));
            let reason = "auto: goal_load dict="@ + text::dec(v.dict.len());
            &&& !m.replicate_needed ==> w == v
            &&& m.replicate_needed ==> w.stack == v.stack && w.dict == v.dict
            &&& m.replicate_needed && crate::mesh::consensus::proposal_refusal(k, t.now).is_some()
                ==> w.mesh == Some(k)
            &&& m.replicate_needed && crate::mesh::consensus::proposal_refusal(k, t.now).is_none()
                ==> w.mesh == Some(
                crate::mesh::consensus::proposed(k, reason, bytes, t.now, t.nanos),
            )
        }),
{
    reveal(ticks::replicate_checked);
    reveal(net::with_mesh);
    reveal(base::printed);
    reveal(base::complained);
}

/// A word is observed in three rounds, each of which starts with the stack of the machine put aside
/// and ends with it back.
pub proof fn law_rounds_of_a_trial(
    v: VmV,
    index: usize,
    body: Seq<Op>,
    round: u8,
    saved: Seq<i64>,
    seen: Seq<char>,
    t: Time,
)
    requires
        round < 3,
    ensures
        ({
            let w = trials::observed(v, index, body, round, saved, seen, None, t);
            let n = w.frames.len();
            &&& n == v.frames.len() + 2
            &&& w.frames[n - 1] == (FrameV::Body { body, ip: 0 })
            &&& w.frames[n - 2] matches FrameV::Probe { round: r, saved: s, index: i, .. } && r
                == round + 1 && i == index && s == (if round == 0 {
                v.stack
            } else {
                saved
            })
        }),
        trials::tried(v, saved).stack == saved,
        trials::tried(v, saved).output.is_none() && trials::tried(v, saved).deadline.is_none(),
        trials::observed(v, index, body, 3, saved, seen, None, t).frames == v.frames,
        trials::observed(v, index, body, 3, saved, seen, None, t).stack == saved,
{
    reveal(trials::observed);
    reveal(trials::trial_begun);
    reveal(trials::behaviour_seen);
    reveal(trials::trying);
    reveal(trials::tried);
    reveal(base::framed);
    reveal(base::asked);
}

/// WORDS lists the words from the last to the first, each with a space behind it; hidden words are
/// not listed.
pub proof fn law_hidden_words_are_not_listed(d: Seq<WordV>, k: int)
    requires
        0 < k <= d.len(),
    ensures
        ({
            let (before, m) = words::listing(d, k - 1);
            let (after, n) = words::listing(d, k);
            let w = d[d.len() - k];
            &&& w.hidden ==> after == before && n == m
            &&& !w.hidden ==> n == m + 1 && (before + w.name + " "@).is_prefix_of(after)
        }),
        words::listing(d, 0).1 == 0 && words::listing(d, 0).0.len() == 0,
{
    let (before, m) = words::listing(d, k - 1);
    let (after, n) = words::listing(d, k);
    let x = before + d[d.len() - k].name + " "@;
    if !d[d.len() - k].hidden {
        assert(x =~= after.subrange(0, x.len() as int));
    }
}

} // verus!
