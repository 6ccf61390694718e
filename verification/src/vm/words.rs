//! Kernel words: stack, memory, arithmetic, output and introspection.

use crate::goals;
use crate::goals::push_cells;
use crate::num;
use crate::num::{div_trunc, rem_trunc};
use crate::text;
use crate::text::{push_i64, push_usize, text, to_upper};
use crate::types;
use crate::types::{Cell, Instruction, Op, WordV};
use crate::vm::base;
use crate::vm::state::{VmV, VM};
use vstd::prelude::*;

verus! {

// ---------------------------------------------------------------------------
// Stack
// ---------------------------------------------------------------------------

/// DUP ( a -- a a )
#[verifier::opaque]
pub open spec fn p_dup(v: VmV) -> VmV {
    if v.stack.len() == 0 {
        base::complained(v, "stack underflow\n"@)
    } else {
        VmV { stack: v.stack.push(v.stack.last()), ..v }
    }
}

/// DROP ( a -- )
#[verifier::opaque]
pub open spec fn p_drop(v: VmV) -> VmV {
    base::popped(v).1
}

/// SWAP ( a b -- b a )
#[verifier::opaque]
pub open spec fn p_swap(v: VmV) -> VmV {
    let n = v.stack.len();
    if n < 2 {
        base::complained(v, "stack underflow\n"@)
    } else {
        VmV { stack: v.stack.update(n - 1, v.stack[n - 2]).update(n - 2, v.stack[n - 1]), ..v }
    }
}

/// OVER ( a b -- a b a )
#[verifier::opaque]
pub open spec fn p_over(v: VmV) -> VmV {
    let n = v.stack.len();
    if n < 2 {
        base::complained(v, "stack underflow\n"@)
    } else {
        VmV { stack: v.stack.push(v.stack[n - 2]), ..v }
    }
}

/// ROT ( a b c -- b c a )
#[verifier::opaque]
pub open spec fn p_rot(v: VmV) -> VmV {
    let n = v.stack.len();
    if n < 3 {
        base::complained(v, "stack underflow\n"@)
    } else {
        VmV { stack: v.stack.remove(n - 3).push(v.stack[n - 3]), ..v }
    }
}

impl VM {
    pub(crate) fn prim_dup(&mut self)
        ensures
            final(self)@ == p_dup(old(self)@),
    {
        reveal(p_dup);
        let n = self.stack.len();
        if n == 0 {
            self.complain("stack underflow\n");
        } else {
            let x = self.stack[n - 1];
            self.stack.push(x);
        }
    }

    pub(crate) fn prim_drop(&mut self)
        ensures
            final(self)@ == p_drop(old(self)@),
    {
        reveal(p_drop);
        let _ = self.pop();
    }

    pub(crate) fn prim_swap(&mut self)
        ensures
            final(self)@ == p_swap(old(self)@),
    {
        reveal(p_swap);
        let n = self.stack.len();
        if n < 2 {
            self.complain("stack underflow\n");
        } else {
            let a = self.stack[n - 2];
            let b = self.stack[n - 1];
            self.stack.set(n - 1, a);
            self.stack.set(n - 2, b);
        }
    }

    pub(crate) fn prim_over(&mut self)
        ensures
            final(self)@ == p_over(old(self)@),
    {
        reveal(p_over);
        let n = self.stack.len();
        if n < 2 {
            self.complain("stack underflow\n");
        } else {
            let a = self.stack[n - 2];
            self.stack.push(a);
        }
    }

    pub(crate) fn prim_rot(&mut self)
        ensures
            final(self)@ == p_rot(old(self)@),
    {
        reveal(p_rot);
        let n = self.stack.len();
        if n < 3 {
            self.complain("stack underflow\n");
        } else {
            let a = self.stack.remove(n - 3);
            self.stack.push(a);
        }
    }
}

/// Swapping twice changes nothing.
pub proof fn law_swap_twice(v: VmV)
    requires
        v.stack.len() >= 2,
    ensures
        p_swap(p_swap(v)) == v,
{
    reveal(p_swap);
    assert(p_swap(p_swap(v)).stack =~= v.stack);
}

/// Dropping what was copied changes nothing.
pub proof fn law_dup_drop(v: VmV)
    requires
        v.stack.len() >= 1,
    ensures
        p_drop(p_dup(v)) == v,
        p_drop(p_over(v)) == v || v.stack.len() < 2,
{
    reveal(p_dup);
    reveal(p_over);
    reveal(p_drop);
    reveal(base::popped);
    assert(p_drop(p_dup(v)).stack =~= v.stack);
    if v.stack.len() >= 2 {
        assert(p_drop(p_over(v)).stack =~= v.stack);
    }
}

/// Rotating three times changes nothing.
pub proof fn law_rot_three_times(v: VmV)
    requires
        v.stack.len() >= 3,
    ensures
        p_rot(p_rot(p_rot(v))) == v,
{
    reveal(p_rot);
    assert(p_rot(p_rot(p_rot(v))).stack =~= v.stack);
}

// ---------------------------------------------------------------------------
// Memory
// ---------------------------------------------------------------------------

/// The message for an address without a cell.
pub open spec fn bad_address(addr: usize) -> Seq<char> {
    "invalid address: "@ + text::dec(addr as nat) + "\n"@
}

/// @ ( addr -- value )
#[verifier::opaque]
pub open spec fn p_fetch(v: VmV) -> VmV {
    let (a, v) = base::popped(v);
    let addr = a as usize;
    if addr < v.memory.len() {
        base::pushed(v, v.memory[addr as int])
    } else {
        base::pushed(base::complained(v, bad_address(addr)), 0)
    }
}

/// The machine with a memory cell set.
#[verifier::opaque]
pub open spec fn poked(v: VmV, addr: usize, x: i64) -> VmV {
    VmV { memory: v.memory.update(addr as int, x), ..v }
}

/// ! ( value addr -- )
#[verifier::opaque]
pub open spec fn p_store(v: VmV) -> VmV {
    let (a, v) = base::popped(v);
    let (x, v) = base::popped(v);
    let addr = a as usize;
    if addr < v.memory.len() {
        poked(v, addr, x)
    } else {
        base::complained(v, bad_address(addr))
    }
}

impl VM {
    fn bad_address(&mut self, addr: usize)
        ensures
            final(self)@ == base::complained(old(self)@, bad_address(addr)),
    {
        let mut s = text("invalid address: ");
        push_usize(&mut s, addr);
        s.append("\n");
        self.complain(s.as_str());
    }

    pub(crate) fn prim_fetch(&mut self)
        ensures
            final(self)@ == p_fetch(old(self)@),
    {
        reveal(p_fetch);
        let addr = self.pop() as usize;
        if addr < self.memory.len() {
            let x = self.memory[addr];
            self.push(x);
        } else {
            self.bad_address(addr);
            self.push(0);
        }
    }

    pub(crate) fn poke(&mut self, addr: usize, x: Cell)
        requires
            addr < old(self).memory@.len(),
        ensures
            final(self)@ == poked(old(self)@, addr, x),
    {
        reveal(poked);
        self.memory.set(addr, x);
    }

    pub(crate) fn prim_store(&mut self)
        ensures
            final(self)@ == p_store(old(self)@),
    {
        reveal(p_store);
        let addr = self.pop() as usize;
        let x = self.pop();
        if addr < self.memory.len() {
            self.poke(addr, x);
        } else {
            self.bad_address(addr);
        }
    }
}

/// What is stored at an address of the memory is fetched from there.
pub proof fn law_store_fetch(v: VmV, x: i64, addr: i64)
    requires
        0 <= addr < v.memory.len(),
        v.memory.len() <= usize::MAX,
    ensures
        ({
            let w = p_fetch(base::pushed(p_store(base::pushed(base::pushed(v, x), addr)), addr));
            w == base::pushed(VmV { memory: v.memory.update(addr as int, x), ..v }, x)
        }),
{
    reveal(p_store);
    reveal(p_fetch);
    reveal(poked);
    reveal(base::popped);
    reveal(base::pushed);
    assert(addr as usize == addr);
    let w1 = p_store(base::pushed(base::pushed(v, x), addr));
    assert(w1.stack =~= v.stack);
    assert(base::pushed(w1, addr).stack.drop_last() =~= v.stack);
}

// ---------------------------------------------------------------------------
// Arithmetic, comparison and logic
// ---------------------------------------------------------------------------

/// What a word with two arguments computes of them.
#[derive(Clone, Copy, PartialEq, Eq, Structural)]
pub enum Binary {
    Plus,
    Minus,
    Times,
    Equal,
    Less,
    Greater,
    Both,
    Either,
}

/// A truth value on the stack.
pub open spec fn truth(b: bool) -> i64 {
    if b {
        -1i64
    } else {
        0
    }
}

/// The value of a word with two arguments.
pub open spec fn binary(op: Binary, a: i64, b: i64) -> i64 {
    match op {
        Binary::Plus => a.wrapping_add(b),
        Binary::Minus => a.wrapping_sub(b),
        Binary::Times => a.wrapping_mul(b),
        Binary::Equal => truth(a == b),
        Binary::Less => truth(a < b),
        Binary::Greater => truth(a > b),
        Binary::Both => a & b,
        Binary::Either => a | b,
    }
}

/// A word with two arguments ( a b -- c )
#[verifier::opaque]
pub open spec fn p_binary(v: VmV, op: Binary) -> VmV {
    let (b, v) = base::popped(v);
    let (a, v) = base::popped(v);
    base::pushed(v, binary(op, a, b))
}

/// / ( a b -- quotient ), rounded towards zero.
#[verifier::opaque]
pub open spec fn p_div(v: VmV) -> VmV {
    let (b, v) = base::popped(v);
    let (a, v) = base::popped(v);
    if b == 0 {
        base::pushed(base::emit(v, "error: division by zero\n"@), 0)
    } else if a == i64::MIN && b == -1 {
        base::crash(v)
    } else {
        base::pushed(v, num::quotient(a as int, b as int) as i64)
    }
}

/// MOD ( a b -- remainder ), with the sign of the dividend.
#[verifier::opaque]
pub open spec fn p_mod(v: VmV) -> VmV {
    let (b, v) = base::popped(v);
    let (a, v) = base::popped(v);
    if b == 0 {
        base::pushed(base::emit(v, "error: division by zero\n"@), 0)
    } else if a == i64::MIN && b == -1 {
        base::crash(v)
    } else {
        base::pushed(v, num::remainder(a as int, b as int) as i64)
    }
}

/// NOT ( a -- flag )
#[verifier::opaque]
pub open spec fn p_not(v: VmV) -> VmV {
    let (a, v) = base::popped(v);
    base::pushed(v, truth(a == 0))
}

fn compute(op: Binary, a: Cell, b: Cell) -> (r: Cell)
    ensures
        r == binary(op, a, b),
{
    match op {
        Binary::Plus => a.wrapping_add(b),
        Binary::Minus => a.wrapping_sub(b),
        Binary::Times => a.wrapping_mul(b),
        Binary::Equal => flag(a == b),
        Binary::Less => flag(a < b),
        Binary::Greater => flag(a > b),
        Binary::Both => a & b,
        Binary::Either => a | b,
    }
}

/// A truth value on the stack.
pub fn flag(b: bool) -> (r: Cell)
    ensures
        r == truth(b),
{
    if b {
        -1
    } else {
        0
    }
}

impl VM {
    pub(crate) fn prim_binary(&mut self, op: Binary)
        ensures
            final(self)@ == p_binary(old(self)@, op),
    {
        reveal(p_binary);
        let b = self.pop();
        let a = self.pop();
        self.push(compute(op, a, b));
    }

    pub(crate) fn prim_div(&mut self)
        ensures
            final(self)@ == p_div(old(self)@),
    {
        reveal(p_div);
        let b = self.pop();
        let a = self.pop();
        if b == 0 {
            self.emit_str("error: division by zero\n");
            self.push(0);
        } else if a == i64::MIN && b == -1 {
            self.crash();
        } else {
            self.push(div_trunc(a, b));
        }
    }

    pub(crate) fn prim_mod(&mut self)
        ensures
            final(self)@ == p_mod(old(self)@),
    {
        reveal(p_mod);
        let b = self.pop();
        let a = self.pop();
        if b == 0 {
            self.emit_str("error: division by zero\n");
            self.push(0);
        } else if a == i64::MIN && b == -1 {
            self.crash();
        } else {
            self.push(rem_trunc(a, b));
        }
    }

    pub(crate) fn prim_not(&mut self)
        ensures
            final(self)@ == p_not(old(self)@),
    {
        reveal(p_not);
        let a = self.pop();
        self.push(flag(a == 0));
    }
}

/// Two words that compute, on a stack that holds their arguments, leave the value of the second
/// of the value of the first.
pub proof fn law_binary_words(v: VmV, op: Binary, a: i64, b: i64)
    ensures
        p_binary(base::pushed(base::pushed(v, a), b), op) == base::pushed(v, binary(op, a, b)),
{
    reveal(p_binary);
    reveal(base::popped);
    reveal(base::pushed);
    assert(v.stack.push(a).push(b).drop_last().drop_last() =~= v.stack);
}

// ---------------------------------------------------------------------------
// Output
// ---------------------------------------------------------------------------

/// True of the numbers of characters.
pub open spec fn is_scalar(n: u32) -> bool {
    n <= 0xD7FF || (0xE000 <= n && n <= 0x10FFFF)
}

/// Calls `char::from_u32`: the character with this number, if there is one.
#[verifier::external_body]
fn char_of(n: u32) -> (c: Option<char>)
    ensures
        c.is_some() == is_scalar(n),
        c matches Some(x) ==> x == n as char,
{
    char::from_u32(n)
}

/// EMIT ( code -- )
#[verifier::opaque]
pub open spec fn p_emit(v: VmV) -> VmV {
    let (code, v) = base::popped(v);
    if is_scalar(code as u32) {
        base::emit(v, text::one((code as u32) as char))
    } else {
        v
    }
}

/// . ( n -- )
#[verifier::opaque]
pub open spec fn p_dot(v: VmV) -> VmV {
    let (n, v) = base::popped(v);
    base::emit(v, text::dec_int(n as int) + " "@)
}

/// .S ( -- )
#[verifier::opaque]
pub open spec fn p_dot_s(v: VmV) -> VmV {
    base::emit(v, "<"@ + text::dec(v.stack.len()) + "> "@ + goals::cells_text(v.stack))
}

/// The names of the visible ones of the last `k` entries, latest first, twelve to a line; and how
/// many they are.
pub open spec fn listing(d: Seq<WordV>, k: int) -> (Seq<char>, nat)
    decreases k,
{
    if k <= 0 {
        (Seq::empty(), 0)
    } else {
        let (s, n) = listing(d, k - 1);
        let w = d[d.len() - k];
        if w.hidden {
            (s, n)
        } else if (n + 1) % 12 == 0 {
            (s + w.name + " "@ + "\n"@, n + 1)
        } else {
            (s + w.name + " "@, n + 1)
        }
    }
}

/// WORDS ( -- )
#[verifier::opaque]
pub open spec fn p_words(v: VmV) -> VmV {
    base::emit(v, listing(v.dict, v.dict.len() as int).0 + "\n"@)
}

/// The name at or after position `i` of a built-in word.
pub open spec fn name_from(s: Seq<(Seq<char>, usize)>, id: usize, i: int) -> Seq<char>
    decreases s.len() - i,
{
    if i >= s.len() {
        "?PRIM"@
    } else if s[i].1 == id {
        s[i].0
    } else {
        name_from(s, id, i + 1)
    }
}

/// An instruction as text.
pub open spec fn op_text(v: VmV, op: Op) -> Seq<char> {
    match op {
        Op::Primitive(id) => name_from(v.names, id, 0) + " "@,
        Op::Literal(x) => "LIT("@ + text::dec_int(x as int) + ") "@,
        Op::Call(i) => if i < v.dict.len() {
            v.dict[i as int].name + " "@
        } else {
            "CALL("@ + text::dec(i as nat) + ") "@
        },
        Op::StringLit(s) => ".\" "@ + s + "\" "@,
        Op::Branch(o) => "BRANCH("@ + text::dec_int(o as int) + ") "@,
        Op::BranchIfZero(o) => "0BRANCH("@ + text::dec_int(o as int) + ") "@,
    }
}

/// Instructions as text.
pub open spec fn body_text(v: VmV, body: Seq<Op>) -> Seq<char>
    decreases body.len(),
{
    if body.len() == 0 {
        Seq::empty()
    } else {
        body_text(v, body.drop_last()) + op_text(v, body.last())
    }
}

/// SEE name ( -- )
#[verifier::opaque]
pub open spec fn p_see(v: VmV) -> VmV {
    let (w, v) = base::worded(v);
    match w {
        Some(name) => match base::found(v, text::upper(name)) {
            Some(i) => base::emit(
                v,
                ": "@ + v.dict[i as int].name + " "@ + body_text(v, v.dict[i as int].body) + ";\n"@,
            ),
            None => base::emit(v, text::upper(name) + "?\n"@),
        },
        None => base::emit(v, "expected word name after SEE\n"@),
    }
}

impl VM {
    pub(crate) fn prim_emit(&mut self)
        ensures
            final(self)@ == p_emit(old(self)@),
    {
        reveal(p_emit);
        let code = self.pop();
        match char_of(code as u32) {
            Some(c) => {
                self.emit_char(c);
            },
            None => {},
        }
    }

    pub(crate) fn prim_dot(&mut self)
        ensures
            final(self)@ == p_dot(old(self)@),
    {
        reveal(p_dot);
        let n = self.pop();
        let mut s = String::new();
        push_i64(&mut s, n);
        assert(s@ =~= text::dec_int(n as int));
        s.append(" ");
        self.emit_str(s.as_str());
    }

    pub(crate) fn prim_dot_s(&mut self)
        ensures
            final(self)@ == p_dot_s(old(self)@),
    {
        reveal(p_dot_s);
        let mut s = text("<");
        push_usize(&mut s, self.stack.len());
        s.append("> ");
        push_cells(&mut s, &self.stack);
        self.emit_str(s.as_str());
    }

    pub(crate) fn prim_words(&mut self)
        ensures
            final(self)@ == p_words(old(self)@),
    {
        reveal(p_words);
        let n = self.dictionary.len();
        let mut s = String::new();
        let mut k: usize = 0;
        let mut column: usize = 0;
        let ghost d = self@.dict;
        assert(s@ =~= listing(d, 0).0);
        while k < n
            invariant
                k <= n,
                n == self.dictionary@.len(),
                d == self@.dict,
                self == old(self),
                s@ == listing(d, k as int).0,
                column < 12,
                column == listing(d, k as int).1 % 12,
            decreases n - k,
        {
            k = k + 1;
            assert(d[n - k] == self.dictionary@[n - k]@);
            if !self.dictionary[n - k].hidden {
                s.append(self.dictionary[n - k].name.as_str());
                s.append(" ");
                column = column + 1;
                if column == 12 {
                    s.append("\n");
                    column = 0;
                }
            }
        }
        s.append("\n");
        self.emit_str(s.as_str());
    }

    fn push_name(&self, s: &mut String, id: usize)
        ensures
            final(s)@ == old(s)@ + name_from(self@.names, id, 0),
    {
        let mut i: usize = 0;
        while i < self.primitive_names.len()
            invariant
                i <= self.primitive_names@.len(),
                s@ == old(s)@,
                name_from(self@.names, id, i as int) == name_from(self@.names, id, 0),
            decreases self.primitive_names@.len() - i,
        {
            assert(self@.names[i as int] == self.primitive_names@[i as int]@);
            if self.primitive_names[i].id == id {
                s.append(self.primitive_names[i].name.as_str());
                return;
            }
            i = i + 1;
        }
        s.append("?PRIM");
    }

    fn push_op(&self, s: &mut String, op: &Instruction)
        ensures
            final(s)@ == old(s)@ + op_text(self@, op@),
    {
        let mut t = String::new();
        match op {
            Instruction::Primitive(id) => {
                self.push_name(&mut t, *id);
                assert(t@ =~= name_from(self@.names, *id, 0));
                t.append(" ");
            },
            Instruction::Literal(x) => {
                t = text("LIT(");
                push_i64(&mut t, *x);
                t.append(") ");
            },
            Instruction::Call(i) => {
                if *i < self.dictionary.len() {
                    assert(self@.dict[*i as int] == self.dictionary@[*i as int]@);
                    t = text(self.dictionary[*i].name.as_str());
                    t.append(" ");
                } else {
                    t = text("CALL(");
                    push_usize(&mut t, *i);
                    t.append(") ");
                }
            },
            Instruction::StringLit(x) => {
                t = text(".\" ");
                t.append(x.as_str());
                t.append("\" ");
            },
            Instruction::Branch(o) => {
                t = text("BRANCH(");
                push_i64(&mut t, *o);
                t.append(") ");
            },
            Instruction::BranchIfZero(o) => {
                t = text("0BRANCH(");
                push_i64(&mut t, *o);
                t.append(") ");
            },
        }
        s.append(t.as_str());
    }

    fn push_body(&self, s: &mut String, body: &[Instruction])
        ensures
            final(s)@ == old(s)@ + body_text(self@, types::ops(body@)),
    {
        let ghost b = types::ops(body@);
        let mut i: usize = 0;
        assert(s@ =~= old(s)@ + body_text(self@, b.take(0)));
        while i < body.len()
            invariant
                i <= body@.len(),
                b == types::ops(body@),
                s@ == old(s)@ + body_text(self@, b.take(i as int)),
            decreases body@.len() - i,
        {
            self.push_op(s, &body[i]);
            i = i + 1;
            assert(b.take(i as int).drop_last() =~= b.take(i - 1));
            assert(s@ =~= old(s)@ + body_text(self@, b.take(i as int)));
        }
        assert(b.take(i as int) =~= b);
    }

    pub(crate) fn prim_see(&mut self)
        ensures
            final(self)@ == p_see(old(self)@),
    {
        reveal(p_see);
        match self.next_word() {
            Some(name) => {
                let up = to_upper(name.as_str());
                assert(up@ == text::upper(name@));
                match self.find_word(up.as_str()) {
                    Some(i) => {
                        assert(self@.dict[i as int] == self.dictionary@[i as int]@);
                        let mut s = text(": ");
                        s.append(self.dictionary[i].name.as_str());
                        s.append(" ");
                        self.push_body(&mut s, &self.dictionary[i].body);
                        s.append(";\n");
                        self.emit_str(s.as_str());
                    },
                    None => {
                        let mut s = up;
                        s.append("?\n");
                        self.emit_str(s.as_str());
                    },
                }
            },
            None => self.emit_str("expected word name after SEE\n"),
        }
    }
}

// ---------------------------------------------------------------------------
// Loop indices and control
// ---------------------------------------------------------------------------

/// I ( -- index )
#[verifier::opaque]
pub open spec fn p_i(v: VmV) -> VmV {
    base::pushed(v, if v.rstack.len() == 0 {
        0
    } else {
        v.rstack.last()
    })
}

/// J ( -- index )
#[verifier::opaque]
pub open spec fn p_j(v: VmV) -> VmV {
    base::pushed(v, if v.rstack.len() < 3 {
        0
    } else {
        v.rstack[v.rstack.len() - 3]
    })
}

/// QUIT ( -- )
#[verifier::opaque]
pub open spec fn p_quit(v: VmV) -> VmV {
    VmV { running: false, ..v }
}

impl VM {
    pub(crate) fn prim_i(&mut self)
        ensures
            final(self)@ == p_i(old(self)@),
    {
        reveal(p_i);
        let n = self.rstack.len();
        let x: Cell = if n == 0 {
            0
        } else {
            self.rstack[n - 1]
        };
        self.push(x);
    }

    pub(crate) fn prim_j(&mut self)
        ensures
            final(self)@ == p_j(old(self)@),
    {
        reveal(p_j);
        let n = self.rstack.len();
        let x: Cell = if n < 3 {
            0
        } else {
            self.rstack[n - 3]
        };
        self.push(x);
    }

    pub(crate) fn prim_quit(&mut self)
        ensures
            final(self)@ == p_quit(old(self)@),
    {
        reveal(p_quit);
        self.running = false;
    }
}

} // verus!
