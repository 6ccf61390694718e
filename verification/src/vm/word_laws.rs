//! What the words of the machine do to the numbers on its stack, to its memory and to the flow of
//! control.

use crate::num;
use crate::types::{Op, WordV};
use crate::vm::base;
use crate::vm::compile;
use crate::vm::compile::{P_DO_RT, P_LOOP_RT};
use crate::vm::machine;
use crate::vm::state::{FrameV, Time, VmV};
use crate::vm::words;
use crate::vm::words::Binary;
use vstd::prelude::*;

verus! {

/// The machine with another stack.
pub open spec fn on(v: VmV, stack: Seq<i64>) -> VmV {
    VmV { stack, ..v }
}

// ---------------------------------------------------------------------------
// The stack
// ---------------------------------------------------------------------------

/// DUP ( a -- a a ), DROP ( a -- ), SWAP ( a b -- b a ), OVER ( a b -- a b a ) and
/// ROT ( a b c -- b c a ), whatever lies below.
pub proof fn law_stack_words(v: VmV, s: Seq<i64>, a: i64, b: i64, c: i64)
    ensures
        words::p_dup(on(v, s.push(a))) == on(v, s.push(a).push(a)),
        words::p_drop(on(v, s.push(a))) == on(v, s),
        words::p_swap(on(v, s.push(a).push(b))) == on(v, s.push(b).push(a)),
        words::p_over(on(v, s.push(a).push(b))) == on(v, s.push(a).push(b).push(a)),
        words::p_rot(on(v, s.push(a).push(b).push(c))) == on(v, s.push(b).push(c).push(a)),
{
    reveal(words::p_dup);
    reveal(words::p_drop);
    reveal(words::p_swap);
    reveal(words::p_over);
    reveal(words::p_rot);
    reveal(base::popped);
    assert(s.push(a).drop_last() =~= s);
    let t = s.push(a).push(b);
    let n = t.len();
    assert(t.update(n - 1, t[n - 2]).update(n - 2, t[n - 1]) =~= s.push(b).push(a));
    let u = t.push(c);
    assert(u.remove(u.len() - 3).push(u[u.len() - 3]) =~= s.push(b).push(c).push(a));
}

/// A word that needs more than there is leaves the stack as it is; a number that is not there counts
/// as 0.
pub proof fn law_too_few(v: VmV)
    ensures
        v.stack.len() == 0 ==> words::p_dup(v).stack == v.stack && words::p_drop(v).stack == v.stack,
        v.stack.len() < 2 ==> words::p_swap(v).stack == v.stack && words::p_over(v).stack == v.stack,
        v.stack.len() < 3 ==> words::p_rot(v).stack == v.stack,
        v.stack.len() == 0 ==> words::p_binary(v, Binary::Plus).stack == seq![0i64],
{
    reveal(words::p_dup);
    reveal(words::p_drop);
    reveal(words::p_swap);
    reveal(words::p_over);
    reveal(words::p_rot);
    reveal(words::p_binary);
    reveal(base::popped);
    reveal(base::pushed);
    reveal(base::emit);
    reveal(base::complained);
    assert(v.stack.len() == 0 ==> v.stack.push(0i64) =~= seq![0i64]);
}

// ---------------------------------------------------------------------------
// Arithmetic and comparison
// ---------------------------------------------------------------------------

proof fn lemma_binary(v: VmV, s: Seq<i64>, a: i64, b: i64, op: Binary)
    ensures
        words::p_binary(on(v, s.push(a).push(b)), op) == on(v, s.push(words::binary(op, a, b))),
{
    words::law_binary_words(on(v, s), op, a, b);
    reveal(base::pushed);
}

/// Two numbers give one. A sum, a difference and a product are exact where they fit a cell, and else
/// differ from the exact number by a multiple of two to the power of 64.
pub proof fn law_arithmetic(v: VmV, s: Seq<i64>, a: i64, b: i64)
    ensures
        ({
            let m = 0x1_0000_0000_0000_0000int;
            let sum = words::p_binary(on(v, s.push(a).push(b)), Binary::Plus);
            let difference = words::p_binary(on(v, s.push(a).push(b)), Binary::Minus);
            let product = words::p_binary(on(v, s.push(a).push(b)), Binary::Times);
            &&& sum == on(v, s.push(sum.stack.last()))
            &&& difference == on(v, s.push(difference.stack.last()))
            &&& product == on(v, s.push(product.stack.last()))
            &&& i64::MIN <= a + b <= i64::MAX ==> sum.stack.last() == a + b
            &&& i64::MIN <= a - b <= i64::MAX ==> difference.stack.last() == a - b
            &&& i64::MIN <= a * b <= i64::MAX ==> product.stack.last() == a * b
            &&& (sum.stack.last() - (a + b)) % m == 0
            &&& (difference.stack.last() - (a - b)) % m == 0
            &&& (product.stack.last() - a * b) % m == 0
        }),
{
    lemma_binary(v, s, a, b, Binary::Plus);
    lemma_binary(v, s, a, b, Binary::Minus);
    lemma_binary(v, s, a, b, Binary::Times);
}

/// A comparison gives -1 if it holds and 0 if it does not: the first number is the lower one.
pub proof fn law_comparison(v: VmV, s: Seq<i64>, a: i64, b: i64)
    ensures
        ({
            let equal = words::p_binary(on(v, s.push(a).push(b)), Binary::Equal);
            let less = words::p_binary(on(v, s.push(a).push(b)), Binary::Less);
            let greater = words::p_binary(on(v, s.push(a).push(b)), Binary::Greater);
            &&& a == b ==> equal == on(v, s.push(-1i64))
            &&& a != b ==> equal == on(v, s.push(0i64))
            &&& a < b ==> less == on(v, s.push(-1i64))
            &&& a >= b ==> less == on(v, s.push(0i64))
            &&& a > b ==> greater == on(v, s.push(-1i64))
            &&& a <= b ==> greater == on(v, s.push(0i64))
        }),
{
    lemma_binary(v, s, a, b, Binary::Equal);
    lemma_binary(v, s, a, b, Binary::Less);
    lemma_binary(v, s, a, b, Binary::Greater);
}

/// NOT turns 0 into -1 and every other number into 0.
pub proof fn law_not(v: VmV, s: Seq<i64>, a: i64)
    ensures
        a == 0 ==> words::p_not(on(v, s.push(a))) == on(v, s.push(-1i64)),
        a != 0 ==> words::p_not(on(v, s.push(a))) == on(v, s.push(0i64)),
{
    reveal(words::p_not);
    reveal(base::popped);
    reveal(base::pushed);
    assert(s.push(a).drop_last() =~= s);
}

/// AND and OR work on bits: with all bits set AND keeps a number and OR sets every bit, without any
/// AND clears it and OR keeps it, and both commute. Every bit goes its own way: what two numbers
/// share and what either has add up to both.
pub proof fn law_bits(v: VmV, s: Seq<i64>, a: i64, b: i64)
    ensures
        words::p_binary(on(v, s.push(a).push(-1i64)), Binary::Both) == on(v, s.push(a)),
        words::p_binary(on(v, s.push(a).push(0i64)), Binary::Both) == on(v, s.push(0i64)),
        words::p_binary(on(v, s.push(a).push(-1i64)), Binary::Either) == on(v, s.push(-1i64)),
        words::p_binary(on(v, s.push(a).push(0i64)), Binary::Either) == on(v, s.push(a)),
        words::p_binary(on(v, s.push(a).push(b)), Binary::Both) == words::p_binary(
            on(v, s.push(b).push(a)),
            Binary::Both,
        ),
        words::p_binary(on(v, s.push(a).push(b)), Binary::Both).stack.last() + words::p_binary(
            on(v, s.push(a).push(b)),
            Binary::Either,
        ).stack.last() == a + b,
{
    lemma_binary(v, s, a, -1i64, Binary::Both);
    lemma_binary(v, s, a, 0i64, Binary::Both);
    lemma_binary(v, s, a, -1i64, Binary::Either);
    lemma_binary(v, s, a, 0i64, Binary::Either);
    lemma_binary(v, s, a, b, Binary::Both);
    lemma_binary(v, s, b, a, Binary::Both);
    lemma_binary(v, s, a, b, Binary::Either);
    assert(a & -1i64 == a) by (bit_vector);
    assert(a & 0i64 == 0i64) by (bit_vector);
    assert(a | -1i64 == -1i64) by (bit_vector);
    assert(a | 0i64 == a) by (bit_vector);
    assert(a & b == b & a) by (bit_vector);
    assert((a & b) + (a | b) == a + b) by (bit_vector);
}

/// Division rounds towards zero, and the remainder has the sign of the number that is divided. A
/// division by zero complains and gives 0.
pub proof fn law_division_words(v: VmV, s: Seq<i64>, a: i64, b: i64)
    requires
        !(a == i64::MIN && b == -1),
    ensures
        ({
            let d = words::p_div(on(v, s.push(a).push(b)));
            let m = words::p_mod(on(v, s.push(a).push(b)));
            let q = d.stack.last() as int;
            let r = m.stack.last() as int;
            &&& d.stack == s.push(d.stack.last()) && m.stack == s.push(m.stack.last())
            &&& b != 0 ==> q * b + r == a
            &&& b != 0 ==> (a >= 0 ==> r >= 0) && (a <= 0 ==> r <= 0)
            &&& b > 0 ==> -b < r < b
            &&& b < 0 ==> b < r < -b
            &&& b == 0 ==> q == 0 && r == 0
            &&& b != 0 ==> d == on(v, d.stack) && m == on(v, m.stack)
            &&& b == 0 && v.output.is_none() ==> d.console == v.console.push(
                (false, "error: division by zero\n"@),
            )
        }),
{
    reveal(words::p_div);
    reveal(words::p_mod);
    reveal(base::popped);
    reveal(base::pushed);
    reveal(base::emit);
    assert(s.push(a).push(b).drop_last() =~= s.push(a));
    assert(s.push(a).drop_last() =~= s);
    if b != 0 {
        num::law_division(a as int, b as int);
        lemma_quotient_fits(a as int, b as int);
        lemma_remainder_sign(a as int, b as int);
    }
}

proof fn lemma_remainder_sign(a: int, b: int)
    requires
        b != 0,
    ensures
        a >= 0 ==> num::remainder(a, b) >= 0,
        a <= 0 ==> num::remainder(a, b) <= 0,
{
    assert(num::magnitude(a) % num::magnitude(b) >= 0);
    if a == 0 {
        assert(0int % num::magnitude(b) == 0) by {
            vstd::arithmetic::div_mod::lemma_small_mod(0, num::magnitude(b) as nat);
        }
    }
}

proof fn lemma_quotient_fits(a: int, b: int)
    requires
        i64::MIN <= a <= i64::MAX,
        i64::MIN <= b <= i64::MAX,
        b != 0,
        !(a == i64::MIN && b == -1),
    ensures
        i64::MIN <= num::quotient(a, b) <= i64::MAX,
        i64::MIN <= num::remainder(a, b) <= i64::MAX,
{
    let x = num::magnitude(a);
    let y = num::magnitude(b);
    assert(0 <= x / y <= x) by (nonlinear_arith)
        requires
            x >= 0,
            y >= 1,
    ;
    assert(0 <= x % y < y) by (nonlinear_arith)
        requires
            y >= 1,
    ;
    if a == i64::MIN && b < -1 {
        assert(x / y <= x / 2) by (nonlinear_arith)
            requires
                x >= 0,
                y >= 2,
        ;
    }
}

// ---------------------------------------------------------------------------
// Memory
// ---------------------------------------------------------------------------

/// A store changes one cell and nothing else of the machine; a fetch reads the cell and changes
/// nothing but the stack.
pub proof fn law_memory_words(v: VmV, s: Seq<i64>, x: i64, addr: i64)
    requires
        0 <= addr < v.memory.len(),
        v.memory.len() <= usize::MAX,
    ensures
        words::p_fetch(on(v, s.push(addr))) == on(v, s.push(v.memory[addr as int])),
        words::p_store(on(v, s.push(x).push(addr))) == (VmV {
            memory: v.memory.update(addr as int, x),
            ..on(v, s)
        }),
{
    reveal(words::p_fetch);
    reveal(words::p_store);
    reveal(words::poked);
    reveal(base::popped);
    reveal(base::pushed);
    assert(s.push(addr).drop_last() =~= s);
    assert(s.push(x).push(addr).drop_last() =~= s.push(x));
    assert(s.push(x).drop_last() =~= s);
}

/// Outside of memory nothing is stored, and a fetch gives 0.
pub proof fn law_outside_memory(v: VmV, s: Seq<i64>, x: i64, addr: i64)
    requires
        addr as usize >= v.memory.len(),
    ensures
        words::p_fetch(on(v, s.push(addr))).stack == s.push(0i64),
        words::p_fetch(on(v, s.push(addr))).memory == v.memory,
        words::p_store(on(v, s.push(x).push(addr))).memory == v.memory,
        words::p_store(on(v, s.push(x).push(addr))).stack == s,
{
    reveal(words::p_fetch);
    reveal(words::p_store);
    reveal(base::popped);
    reveal(base::pushed);
    reveal(base::complained);
    assert(s.push(addr).drop_last() =~= s);
    assert(s.push(x).push(addr).drop_last() =~= s.push(x));
    assert(s.push(x).drop_last() =~= s);
}

// ---------------------------------------------------------------------------
// Loops
// ---------------------------------------------------------------------------

/// A counted loop takes its limit and its start off the stack. In its body I gives the index; in the
/// body of a loop within it I gives the index of the inner one and J that of the outer one.
pub proof fn law_loop_indices(v: VmV, s: Seq<i64>, limit: i64, start: i64, inner: i64, first: i64)
    ensures
        ({
            let outer = compile::p_do_rt(on(v, s.push(limit).push(start)));
            let both = compile::p_do_rt(on(outer, s.push(inner).push(first)));
            &&& outer == VmV { rstack: v.rstack.push(limit).push(start), ..on(v, s) }
            &&& words::p_i(outer) == on(outer, s.push(start))
            &&& words::p_i(both) == on(both, s.push(first))
            &&& words::p_j(both) == on(both, s.push(start))
        }),
{
    reveal(compile::p_do_rt);
    reveal(words::p_i);
    reveal(words::p_j);
    reveal(base::popped);
    reveal(base::pushed);
    reveal(base::rpushed);
    assert(s.push(limit).push(start).drop_last() =~= s.push(limit));
    assert(s.push(limit).drop_last() =~= s);
    assert(s.push(inner).push(first).drop_last() =~= s.push(inner));
    assert(s.push(inner).drop_last() =~= s);
}

/// The machine after so many rounds of a counted loop.
pub open spec fn rounds(v: VmV, n: nat) -> VmV
    decreases n,
{
    if n == 0 {
        v
    } else {
        let w = compile::p_loop_rt(rounds(v, (n - 1) as nat));
        on(w, w.stack.drop_last())
    }
}

/// A loop from `start` up to `limit` takes `limit - start` rounds: after each of the earlier ones the
/// flag says to go on and the index is one higher, after the last one the flag says to stop and the
/// return stack is as before the loop.
pub proof fn law_loop_rounds(v: VmV, limit: i64, start: i64, n: nat)
    requires
        start < limit,
        n < limit - start,
    ensures
        ({
            let begun = VmV { rstack: v.rstack.push(limit).push(start), ..v };
            let w = rounds(begun, n);
            let after = compile::p_loop_rt(w);
            &&& w == VmV { rstack: v.rstack.push(limit).push((start + n) as i64), ..v }
            &&& n + 1 < limit - start ==> after.stack == v.stack.push(0i64)
            &&& n + 1 == limit - start ==> after.stack == v.stack.push(-1i64) && after.rstack
                == v.rstack
        }),
    decreases n,
{
    let begun = VmV { rstack: v.rstack.push(limit).push(start), ..v };
    reveal(base::pushed);
    reveal(base::rpushed);
    if n > 0 {
        law_loop_rounds(v, limit, start, (n - 1) as nat);
        compile::law_loop_counts(v, limit, (start + n - 1) as i64);
        let w = rounds(begun, (n - 1) as nat);
        assert(compile::p_loop_rt(w).stack.drop_last() =~= v.stack);
    }
    compile::law_loop_counts(v, limit, (start + n) as i64);
}

// ---------------------------------------------------------------------------
// The flow of control
// ---------------------------------------------------------------------------

/// A branch that is compiled goes where its offset says; a conditional one only if the number on the
/// stack is 0, which it takes. Else the next instruction follows.
pub proof fn law_branches(v: VmV, s: Seq<i64>, x: i64, body: Seq<Op>, ip: usize, o: i64, t: Time)
    requires
        ip < body.len(),
        ip < 0x7FFF_FFFF,
        0 <= ip + o < 0x7FFF_FFFF,
    ensures
        body[ip as int] == Op::Branch(o) ==> machine::performed(v, body, ip, t) == (VmV {
            frames: v.frames.push(FrameV::Body { body, ip: (ip + o) as usize }),
            ..v
        }),
        body[ip as int] == Op::BranchIfZero(o) && x == 0 ==> machine::performed(
            on(v, s.push(x)),
            body,
            ip,
            t,
        ) == (VmV { frames: v.frames.push(FrameV::Body { body, ip: (ip + o) as usize }), ..on(v, s) }),
        body[ip as int] == Op::BranchIfZero(o) && x != 0 ==> machine::performed(
            on(v, s.push(x)),
            body,
            ip,
            t,
        ) == (VmV { frames: v.frames.push(FrameV::Body { body, ip: (ip + 1) as usize }), ..on(v, s) }),
{
    reveal(machine::performed);
    reveal(base::popped);
    reveal(base::framed);
    assert(s.push(x).drop_last() =~= s);
}

/// A literal is pushed, a text is shown, a call enters the body of its word; the instruction after
/// it comes next.
pub proof fn law_plain_instructions(v: VmV, body: Seq<Op>, ip: usize, t: Time)
    requires
        ip < body.len(),
        ip < 0x7FFF_FFFF,
    ensures
        ({
            let next = FrameV::Body { body, ip: (ip + 1) as usize };
            let w = machine::performed(v, body, ip, t);
            &&& body[ip as int] matches Op::Literal(x) ==> w == VmV {
                frames: v.frames.push(next),
                stack: v.stack.push(x),
                ..v
            }
            &&& body[ip as int] matches Op::Call(i) ==> i < v.dict.len() ==> w == VmV {
                frames: v.frames.push(next).push(
                    FrameV::Body { body: v.dict[i as int].body, ip: 0 },
                ),
                ..v
            }
            &&& body[ip as int] matches Op::StringLit(x) ==> v.output.is_none() ==> w == VmV {
                frames: v.frames.push(next),
                console: v.console.push((false, x)),
                ..v
            }
        }),
{
    reveal(machine::performed);
    reveal(machine::called);
    reveal(base::framed);
    reveal(base::pushed);
    reveal(base::emit);
}

/// The end of a body takes its frame away and changes nothing else.
pub proof fn law_body_ends(v: VmV, body: Seq<Op>, ip: usize, t: Time)
    requires
        ip >= body.len(),
    ensures
        machine::body_stepped(v, body, ip, t) == v,
{
    reveal(machine::body_stepped);
}

/// The machine in a definition, with more of it compiled.
pub open spec fn and_then(v: VmV, ops: Seq<Op>) -> VmV {
    VmV { def: Some(WordV { body: v.def->0.body + ops, ..v.def->0 }), ..v }
}

/// True of a machine in the definition of a word with a name.
pub open spec fn in_word(v: VmV, w: WordV) -> bool {
    &&& v.def == Some(w) && v.compiling && w.name.len() > 0
    &&& 0 < v.anon < i32::MAX - 1
    &&& w.body.len() < 0x3FFF_FFFF
}

/// IF a ELSE b THEN: without a truth the machine jumps behind ELSE, and from there over b.
#[verifier::spinoff_prover]
#[verifier::rlimit(40)]
pub proof fn law_if_else_then(v: VmV, w: WordV, a: Seq<Op>, b: Seq<Op>)
    requires
        in_word(v, w),
        a.len() < 0x0FFF_FFFF,
        b.len() < 0x0FFF_FFFF,
    ensures
        compile::p_then(and_then(compile::p_else(and_then(compile::p_if(v), a)), b)) == and_then(
            v,
            seq![Op::BranchIfZero((a.len() + 2) as i64)] + a + seq![
                Op::Branch((b.len() + 1) as i64),
            ] + b,
        ),
{
    reveal(compile::p_if);
    reveal(compile::p_else);
    reveal(compile::p_then);
    reveal(compile::deeper);
    reveal(compile::shallower);
    reveal(compile::marked);
    reveal(compile::patched);
    reveal(base::compiled);
    reveal(base::rpushed);
    reveal(base::unfixed);
    let n = w.body.len() as int;
    let v1 = compile::p_if(v);
    let v2 = and_then(v1, a);
    assert(v1.rstack == v.rstack.push(n as i64));
    let (f, u2) = base::unfixed(v2);
    assert(f as usize == n);
    assert(u2.rstack =~= v.rstack);
    let b2 = u2.def->0.body;
    assert(b2[n] == Op::BranchIfZero(0));
    let v3 = compile::p_else(v2);
    let skip = Op::BranchIfZero((a.len() + 2) as i64);
    assert(v3.def->0.body =~= w.body.push(skip) + a + seq![Op::Branch(0)]);
    assert(v3.rstack == v.rstack.push((n + 1 + a.len()) as i64));
    let v4 = and_then(v3, b);
    let (g, u4) = base::unfixed(v4);
    assert(u4.rstack =~= v.rstack);
    assert(g as usize == n + 1 + a.len());
    let b4 = u4.def->0.body;
    assert(b4[n + 1 + a.len()] == Op::Branch(0));
    assert(b4.update(n + 1 + a.len(), Op::Branch((b.len() + 1) as i64)) =~= w.body + (seq![skip] + a
        + seq![Op::Branch((b.len() + 1) as i64)] + b));
}

/// BEGIN a UNTIL: a is repeated until it leaves a truth.
pub proof fn law_begin_until(v: VmV, w: WordV, a: Seq<Op>)
    requires
        in_word(v, w),
        a.len() < 0x0FFF_FFFF,
    ensures
        compile::p_until(and_then(compile::p_begin(v), a)) == and_then(
            v,
            a + seq![Op::BranchIfZero(-(a.len() as int) as i64)],
        ),
{
    reveal(compile::p_begin);
    reveal(compile::p_until);
    reveal(base::compiled);
    reveal(base::rpushed);
    reveal(base::unfixed);
    let n = w.body.len() as int;
    let v1 = and_then(compile::p_begin(v), a);
    let (f, u) = base::unfixed(v1);
    assert(f == n);
    assert(u.rstack =~= v.rstack);
    assert((w.body + a).push(Op::BranchIfZero(-(a.len() as int) as i64)) =~= w.body + (a + seq![
        Op::BranchIfZero(-(a.len() as int) as i64),
    ]));
}

/// BEGIN a WHILE b REPEAT: while a leaves a truth, b runs and a comes again.
pub proof fn law_begin_while_repeat(v: VmV, w: WordV, a: Seq<Op>, b: Seq<Op>)
    requires
        in_word(v, w),
        a.len() < 0x0FFF_FFFF,
        b.len() < 0x0FFF_FFFF,
    ensures
        compile::p_repeat(and_then(compile::p_while(and_then(compile::p_begin(v), a)), b))
            == and_then(
            v,
            a + seq![Op::BranchIfZero((b.len() + 2) as i64)] + b + seq![
                Op::Branch(-(a.len() + b.len() + 1) as i64),
            ],
        ),
{
    reveal(compile::p_begin);
    reveal(compile::p_while);
    reveal(compile::p_repeat);
    reveal(compile::marked);
    reveal(compile::patched);
    reveal(base::compiled);
    reveal(base::rpushed);
    reveal(base::unfixed);
    let n = w.body.len() as int;
    let v1 = and_then(compile::p_begin(v), a);
    let v2 = compile::p_while(v1);
    assert(v2.rstack == v.rstack.push(n as i64).push((n + a.len()) as i64));
    assert(v2.def->0.body =~= (w.body + a).push(Op::BranchIfZero(0)));
    let v3 = and_then(v2, b);
    let (f, u) = base::unfixed(v3);
    assert(f == n + a.len());
    assert(u.rstack =~= v.rstack.push(n as i64));
    let (g, x) = base::unfixed(u);
    assert(g == n);
    assert(x.rstack =~= v.rstack);
    let back = Op::Branch(-(a.len() + b.len() + 1) as i64);
    let v4 = base::compiled(x, back);
    assert(compile::body_len(x) == n + a.len() + 1 + b.len());
    assert(v4.def->0.body.update(n + a.len(), Op::BranchIfZero((b.len() + 2) as i64)) =~= w.body + (a
        + seq![Op::BranchIfZero((b.len() + 2) as i64)] + b + seq![back]));
}

/// DO a LOOP: the loop starts once, and a is repeated until the round that ends it.
pub proof fn law_do_loop(v: VmV, w: WordV, a: Seq<Op>)
    requires
        in_word(v, w),
        a.len() < 0x0FFF_FFFF,
    ensures
        compile::p_loop(and_then(compile::p_do(v), a)) == and_then(
            v,
            seq![Op::Primitive(P_DO_RT)] + a + seq![
                Op::Primitive(P_LOOP_RT),
                Op::BranchIfZero(-(a.len() + 1) as i64),
            ],
        ),
{
    reveal(compile::p_do);
    reveal(compile::p_loop);
    reveal(compile::deeper);
    reveal(compile::shallower);
    reveal(base::compiled);
    reveal(base::rpushed);
    reveal(base::unfixed);
    let n = w.body.len() as int;
    let v1 = compile::p_do(v);
    assert(v1.rstack == v.rstack.push((n + 1) as i64));
    let v2 = and_then(v1, a);
    let (f, u) = base::unfixed(v2);
    assert(f == n + 1);
    assert(u.rstack =~= v.rstack);
    let back = Op::BranchIfZero(-(a.len() + 1) as i64);
    assert((w.body.push(Op::Primitive(P_DO_RT)) + a).push(Op::Primitive(P_LOOP_RT)).push(back)
        =~= w.body + (seq![Op::Primitive(P_DO_RT)] + a + seq![Op::Primitive(P_LOOP_RT), back]));
}

// ---------------------------------------------------------------------------
// Definitions
// ---------------------------------------------------------------------------

/// A variable is a word that pushes the address of a cell of its own: two variables have different
/// ones. A constant is a word that pushes the number that was on the stack.
pub proof fn law_variables_and_constants(v: VmV, name: Seq<char>, rest: VmV)
    requires
        base::worded(v) == (Some(name), rest),
        rest.here < 0x7FFF_FFFF,
    ensures
        ({
            let a = compile::p_variable(v);
            let word = a.dict.last();
            &&& a.dict == rest.dict.push(word)
            &&& word.name == crate::text::upper(name) && !word.hidden && !word.immediate
            &&& word.body == seq![Op::Literal(rest.here as i64)]
            &&& a.here == rest.here + 1
            &&& a.stack == rest.stack && a.memory == rest.memory
        }),
        rest.stack.len() > 0 ==> ({
            let c = compile::p_constant(v);
            let word = c.dict.last();
            &&& c.dict == rest.dict.push(word)
            &&& word.name == crate::text::upper(name) && !word.hidden && !word.immediate
            &&& word.body == seq![Op::Literal(rest.stack.last())]
            &&& c.stack == rest.stack.drop_last() && c.here == rest.here
        }),
{
    reveal(compile::p_variable);
    reveal(compile::p_constant);
    reveal(compile::allotted);
    reveal(base::defined);
    reveal(base::popped);
}

/// Between : and ; a word is compiled; ; makes it the last word of the dictionary and ends the
/// compilation.
pub proof fn law_colon_semicolon(v: VmV, name: Seq<char>, rest: VmV, ops: Seq<Op>)
    requires
        base::worded(v) == (Some(name), rest),
    ensures
        ({
            let d = compile::p_colon(v);
            let w = compile::p_semicolon(and_then(d, ops));
            &&& d.compiling && d.dict == rest.dict
            &&& w == VmV {
                dict: rest.dict.push(
                    WordV {
                        name: crate::text::upper(name),
                        immediate: false,
                        hidden: false,
                        body: ops,
                    },
                ),
                compiling: false,
                def: None,
                ..rest
            }
        }),
{
    reveal(compile::p_colon);
    reveal(compile::p_semicolon);
    reveal(compile::defining);
    assert(Seq::<Op>::empty() + ops =~= ops);
}

/// A word of a line that is found is entered; one that is not is a number, which is pushed, or else
/// is told to be unknown. In a definition it is compiled instead, unless it is immediate.
pub proof fn law_words_of_a_line(v: VmV, w: Seq<char>, i: usize)
    requires
        v.dict.len() <= usize::MAX,
    ensures
        base::found(v, w) == Some(i) ==> machine::interpreted(v, w) == (VmV {
            frames: v.frames.push(FrameV::Body { body: v.dict[i as int].body, ip: 0 }),
            ..v
        }),
        base::found(v, w).is_none() ==> (machine::number_of(w) matches Some(n)
            ==> machine::interpreted(v, w) == on(v, v.stack.push(n as i64))),
        base::found(v, w) == Some(i) && v.dict[i as int].immediate ==> machine::compiled_word(v, w)
            == machine::interpreted(v, w),
        v.def.is_some() && base::found(v, w) == Some(i) && !v.dict[i as int].immediate
            ==> machine::compiled_word(v, w) == and_then(v, seq![Op::Call(i)]),
        v.def.is_some() && base::found(v, w).is_none() ==> (machine::number_of(w) matches Some(n)
            ==> machine::compiled_word(v, w) == and_then(v, seq![Op::Literal(n as i64)])),
{
    reveal(machine::interpreted);
    reveal(machine::compiled_word);
    reveal(machine::called);
    reveal(base::compiled);
    reveal(base::framed);
    reveal(base::pushed);
    if v.def.is_some() {
        let b = v.def->0.body;
        assert(b.push(Op::Call(i)) =~= b + seq![Op::Call(i)]);
        if let Some(n) = machine::number_of(w) {
            assert(b.push(Op::Literal(n as i64)) =~= b + seq![Op::Literal(n as i64)]);
        }
    }
}

} // verus!
