//! The compiler: definitions, control flow, strings and comments.

use crate::text;
use crate::text::to_upper;
use crate::types;
use crate::types::{Cell, Entry, Instruction, Op, WordV};
use crate::vm::base;
use crate::vm::state::{Frame, FrameV, VmV, VM};
use vstd::prelude::*;

verus! {

/// The number of the built-in word that starts a counted loop.
pub const P_DO_RT: usize = 100;

/// The number of the built-in word that ends a round of a counted loop.
pub const P_LOOP_RT: usize = 101;

// ---------------------------------------------------------------------------
// Defining words
// ---------------------------------------------------------------------------

/// The machine as it begins a definition.
#[verifier::opaque]
pub open spec fn defining(v: VmV, w: WordV) -> VmV {
    VmV { compiling: true, def: Some(w), ..v }
}

/// : name ( -- )
#[verifier::opaque]
pub open spec fn p_colon(v: VmV) -> VmV {
    let (w, v) = base::worded(v);
    match w {
        Some(name) => defining(v, base::word_of(name, Seq::empty())),
        None => base::emit(v, "error: expected word name after ':'\n"@),
    }
}

/// ; ( -- )
#[verifier::opaque]
pub open spec fn p_semicolon(v: VmV) -> VmV {
    match v.def {
        Some(w) => VmV { dict: v.dict.push(w), def: None, compiling: false, ..v },
        None => base::emit(v, "error: ; without matching ':'\n"@),
    }
}

/// CREATE name ( -- )
#[verifier::opaque]
pub open spec fn p_create(v: VmV) -> VmV {
    let (w, v) = base::worded(v);
    match w {
        Some(name) => base::defined(v, base::word_of(name, seq![Op::Literal(v.here as i64)])),
        None => base::emit(v, "error: expected word name after CREATE\n"@),
    }
}

/// The machine with one more memory cell in use.
#[verifier::opaque]
pub open spec fn allotted(v: VmV) -> VmV {
    VmV { here: v.here.wrapping_add(1), ..v }
}

/// VARIABLE name ( -- )
#[verifier::opaque]
pub open spec fn p_variable(v: VmV) -> VmV {
    let (w, v) = base::worded(v);
    match w {
        Some(name) => base::defined(allotted(v), base::word_of(name, seq![Op::Literal(v.here as i64)])),
        None => base::emit(v, "error: expected word name after VARIABLE\n"@),
    }
}

/// CONSTANT name ( n -- )
#[verifier::opaque]
pub open spec fn p_constant(v: VmV) -> VmV {
    let (w, v) = base::worded(v);
    match w {
        Some(name) => {
            let (n, v) = base::popped(v);
            base::defined(v, base::word_of(name, seq![Op::Literal(n)]))
        },
        None => base::emit(v, "error: expected word name after CONSTANT\n"@),
    }
}

/// RECURSE ( -- ): a call of the word that is being defined.
#[verifier::opaque]
pub open spec fn p_recurse(v: VmV) -> VmV {
    base::compiled(v, Op::Call(v.dict.len() as usize))
}

impl VM {
    pub(crate) fn prim_colon(&mut self)
        ensures
            final(self)@ == p_colon(old(self)@),
    {
        reveal(p_colon);
        reveal(defining);
        match self.next_word() {
            Some(name) => {
                let e = Entry {
                    name: to_upper(name.as_str()),
                    immediate: false,
                    hidden: false,
                    body: Vec::new(),
                };
                assert(types::ops(e.body@) =~= Seq::<Op>::empty());
                self.compiling = true;
                self.current_def = Some(e);
            },
            None => self.emit_str("error: expected word name after ':'\n"),
        }
    }

    pub(crate) fn prim_semicolon(&mut self)
        ensures
            final(self)@ == p_semicolon(old(self)@),
    {
        reveal(p_semicolon);
        reveal(base::defined);
        match self.current_def.take() {
            Some(e) => {
                self.define(e);
                self.compiling = false;
            },
            None => self.emit_str("error: ; without matching ':'\n"),
        }
    }

    pub(crate) fn prim_create(&mut self)
        ensures
            final(self)@ == p_create(old(self)@),
    {
        reveal(p_create);
        match self.next_word() {
            Some(name) => {
                let addr = self.here as Cell;
                self.define_simple(name.as_str(), Instruction::Literal(addr));
            },
            None => self.emit_str("error: expected word name after CREATE\n"),
        }
    }

    /// Does nothing: what follows DOES> is compiled into the word itself.
    pub(crate) fn prim_does(&mut self)
        ensures
            final(self)@ == old(self)@,
    {
    }

    pub(crate) fn prim_variable(&mut self)
        ensures
            final(self)@ == p_variable(old(self)@),
    {
        reveal(p_variable);
        reveal(allotted);
        match self.next_word() {
            Some(name) => {
                let addr = self.here;
                self.here = addr.wrapping_add(1);
                self.define_simple(name.as_str(), Instruction::Literal(addr as Cell));
            },
            None => self.emit_str("error: expected word name after VARIABLE\n"),
        }
    }

    pub(crate) fn prim_constant(&mut self)
        ensures
            final(self)@ == p_constant(old(self)@),
    {
        reveal(p_constant);
        match self.next_word() {
            Some(name) => {
                let n = self.pop();
                self.define_simple(name.as_str(), Instruction::Literal(n));
            },
            None => self.emit_str("error: expected word name after CONSTANT\n"),
        }
    }

    pub(crate) fn prim_recurse(&mut self)
        ensures
            final(self)@ == p_recurse(old(self)@),
    {
        reveal(p_recurse);
        let target = self.dictionary.len();
        self.compile(Instruction::Call(target));
    }
}

// ---------------------------------------------------------------------------
// Branches
// ---------------------------------------------------------------------------

/// A definition without a name, which runs when its last control word ends.
pub open spec fn nameless() -> WordV {
    WordV { name: Seq::empty(), immediate: false, hidden: true, body: Seq::empty() }
}

/// The machine one control word deeper. At the prompt it begins a definition without a name.
#[verifier::opaque]
pub open spec fn deeper(v: VmV) -> VmV {
    if !v.compiling && v.def.is_none() {
        VmV { compiling: true, def: Some(nameless()), anon: 1, ..v }
    } else {
        VmV { anon: v.anon.wrapping_add(1), ..v }
    }
}

/// The machine after a control word has ended. A definition without a name whose last control
/// word that was runs.
#[verifier::opaque]
pub open spec fn shallower(v: VmV) -> VmV {
    let anon = v.anon.wrapping_sub(1);
    match v.def {
        Some(w) => if w.name.len() == 0 && anon <= 0 {
            base::framed(
                VmV { def: None, compiling: false, anon: 0, ..v },
                FrameV::Body { body: w.body, ip: 0 },
            )
        } else {
            VmV { anon, ..v }
        },
        None => v,
    }
}

/// How long the body of the word that is being defined is.
pub open spec fn body_len(v: VmV) -> i64 {
    match v.def {
        Some(w) => w.body.len() as usize as i64,
        None => 0,
    }
}

/// The machine with a mark for a branch, which is to be patched.
#[verifier::opaque]
pub open spec fn marked(v: VmV, op: Op) -> VmV {
    match v.def {
        Some(w) => base::compiled(base::rpushed(v, body_len(v)), op),
        None => v,
    }
}

/// The machine with an instruction of the word that is being defined replaced. It crashes if
/// there is no such instruction.
#[verifier::opaque]
pub open spec fn patched(v: VmV, at: usize, op: Op) -> VmV {
    match v.def {
        Some(w) => if at < w.body.len() {
            VmV { def: Some(WordV { body: w.body.update(at as int, op), ..w }), ..v }
        } else {
            base::crash(v)
        },
        None => v,
    }
}

/// IF ( flag -- )
#[verifier::opaque]
pub open spec fn p_if(v: VmV) -> VmV {
    marked(deeper(v), Op::BranchIfZero(0))
}

/// ELSE ( -- )
#[verifier::opaque]
pub open spec fn p_else(v: VmV) -> VmV {
    let (f, v) = base::unfixed(v);
    let at = f as usize;
    match v.def {
        Some(w) => if at < w.body.len() {
            let here = body_len(v);
            let offset = here.wrapping_add(1).wrapping_sub(at as i64);
            base::rpushed(base::compiled(patched(v, at, Op::BranchIfZero(offset)), Op::Branch(0)), here)
        } else {
            base::crash(v)
        },
        None => v,
    }
}

/// A branch with another offset; any other instruction unchanged.
pub open spec fn retargeted(op: Op, offset: i64) -> Op {
    match op {
        Op::BranchIfZero(_) => Op::BranchIfZero(offset),
        Op::Branch(_) => Op::Branch(offset),
        _ => op,
    }
}

/// THEN ( -- )
#[verifier::opaque]
pub open spec fn p_then(v: VmV) -> VmV {
    let (f, v) = base::unfixed(v);
    let at = f as usize;
    match v.def {
        Some(w) => if at < w.body.len() {
            let offset = body_len(v).wrapping_sub(at as i64);
            shallower(patched(v, at, retargeted(w.body[at as int], offset)))
        } else {
            base::crash(v)
        },
        None => v,
    }
}

/// DO ( limit start -- )
#[verifier::opaque]
pub open spec fn p_do(v: VmV) -> VmV {
    let v = base::compiled(deeper(v), Op::Primitive(P_DO_RT));
    match v.def {
        Some(w) => base::rpushed(v, body_len(v)),
        None => v,
    }
}

/// LOOP ( -- )
#[verifier::opaque]
pub open spec fn p_loop(v: VmV) -> VmV {
    let (start, v) = base::unfixed(v);
    match v.def {
        Some(w) => {
            let v = base::compiled(v, Op::Primitive(P_LOOP_RT));
            shallower(base::compiled(v, Op::BranchIfZero(start.wrapping_sub(body_len(v)))))
        },
        None => v,
    }
}

/// BEGIN ( -- )
#[verifier::opaque]
pub open spec fn p_begin(v: VmV) -> VmV {
    match v.def {
        Some(w) => base::rpushed(v, body_len(v)),
        None => v,
    }
}

/// UNTIL ( flag -- )
#[verifier::opaque]
pub open spec fn p_until(v: VmV) -> VmV {
    let (start, v) = base::unfixed(v);
    base::compiled(v, Op::BranchIfZero(start.wrapping_sub(body_len(v))))
}

/// WHILE ( flag -- )
#[verifier::opaque]
pub open spec fn p_while(v: VmV) -> VmV {
    marked(v, Op::BranchIfZero(0))
}

/// REPEAT ( -- )
#[verifier::opaque]
pub open spec fn p_repeat(v: VmV) -> VmV {
    let (f, v) = base::unfixed(v);
    let (start, v) = base::unfixed(v);
    let at = f as usize;
    match v.def {
        Some(w) => {
            let v = base::compiled(v, Op::Branch(start.wrapping_sub(body_len(v))));
            let offset = body_len(v).wrapping_sub(at as i64);
            patched(v, at, Op::BranchIfZero(offset))
        },
        None => v,
    }
}

impl VM {
    fn go_deeper(&mut self)
        ensures
            final(self)@ == deeper(old(self)@),
    {
        reveal(deeper);
        if !self.compiling && self.current_def.is_none() {
            let e = Entry { name: String::new(), immediate: false, hidden: true, body: Vec::new() };
            assert(e@ =~= nameless());
            self.compiling = true;
            self.current_def = Some(e);
            self.anon_depth = 1;
        } else {
            self.anon_depth = self.anon_depth.wrapping_add(1);
        }
    }

    fn go_shallower(&mut self)
        ensures
            final(self)@ == shallower(old(self)@),
    {
        reveal(shallower);
        let anon = self.anon_depth.wrapping_sub(1);
        match self.current_def.take() {
            Some(e) => {
                if e.name.as_str().is_empty() && anon <= 0 {
                    self.compiling = false;
                    self.anon_depth = 0;
                    self.enter(Frame::Body { body: e.body, ip: 0 });
                } else {
                    self.anon_depth = anon;
                    self.current_def = Some(e);
                }
            },
            None => {},
        }
    }

    fn def_len(&self) -> (n: Cell)
        ensures
            n == body_len(self@),
    {
        match &self.current_def {
            Some(e) => e.body.len() as Cell,
            None => 0,
        }
    }

    fn mark(&mut self, op: Instruction)
        ensures
            final(self)@ == marked(old(self)@, op@),
    {
        reveal(marked);
        if self.current_def.is_some() {
            let n = self.def_len();
            self.rpush(n);
            self.compile(op);
        }
    }

    fn patch(&mut self, at: usize, op: Instruction)
        ensures
            final(self)@ == patched(old(self)@, at, op@),
    {
        reveal(patched);
        match self.current_def.take() {
            Some(e) => {
                let mut e = e;
                if at < e.body.len() {
                    let ghost before = types::ops(e.body@);
                    e.body.set(at, op);
                    assert(types::ops(e.body@) =~= before.update(at as int, op@));
                    self.current_def = Some(e);
                } else {
                    self.current_def = Some(e);
                    self.crash();
                }
            },
            None => {},
        }
    }

    /// Whether a word is being defined, and whether it has an instruction at this place.
    fn has_op(&self, at: usize) -> (b: bool)
        ensures
            b == (self@.def matches Some(w) && at < w.body.len()),
    {
        match &self.current_def {
            Some(e) => at < e.body.len(),
            None => false,
        }
    }

    pub(crate) fn prim_if(&mut self)
        ensures
            final(self)@ == p_if(old(self)@),
    {
        reveal(p_if);
        self.go_deeper();
        self.mark(Instruction::BranchIfZero(0));
    }

    pub(crate) fn prim_else(&mut self)
        ensures
            final(self)@ == p_else(old(self)@),
    {
        reveal(p_else);
        let at = self.pop_fixup() as usize;
        if self.current_def.is_some() {
            if self.has_op(at) {
                let here = self.def_len();
                let offset = here.wrapping_add(1).wrapping_sub(at as i64);
                self.patch(at, Instruction::BranchIfZero(offset));
                self.compile(Instruction::Branch(0));
                self.rpush(here);
            } else {
                self.crash();
            }
        }
    }

    pub(crate) fn prim_then(&mut self)
        ensures
            final(self)@ == p_then(old(self)@),
    {
        reveal(p_then);
        let at = self.pop_fixup() as usize;
        let offset = self.def_len().wrapping_sub(at as i64);
        let ghost v = self@;
        let op: Option<Instruction> = match &self.current_def {
            Some(e) => {
                if at < e.body.len() {
                    assert(types::ops(e.body@)[at as int] == e.body@[at as int]@);
                    match &e.body[at] {
                        Instruction::BranchIfZero(_) => Some(Instruction::BranchIfZero(offset)),
                        Instruction::Branch(_) => Some(Instruction::Branch(offset)),
                        other => Some(other.clone()),
                    }
                } else {
                    None
                }
            },
            None => {
                return;
            },
        };
        match op {
            Some(o) => {
                self.patch(at, o);
                self.go_shallower();
            },
            None => self.crash(),
        }
    }

    pub(crate) fn prim_do(&mut self)
        ensures
            final(self)@ == p_do(old(self)@),
    {
        reveal(p_do);
        self.go_deeper();
        self.compile(Instruction::Primitive(P_DO_RT));
        if self.current_def.is_some() {
            let n = self.def_len();
            self.rpush(n);
        }
    }

    pub(crate) fn prim_loop(&mut self)
        ensures
            final(self)@ == p_loop(old(self)@),
    {
        reveal(p_loop);
        let start = self.pop_fixup();
        if self.current_def.is_some() {
            self.compile(Instruction::Primitive(P_LOOP_RT));
            let offset = start.wrapping_sub(self.def_len());
            self.compile(Instruction::BranchIfZero(offset));
            self.go_shallower();
        }
    }

    pub(crate) fn prim_begin(&mut self)
        ensures
            final(self)@ == p_begin(old(self)@),
    {
        reveal(p_begin);
        if self.current_def.is_some() {
            let n = self.def_len();
            self.rpush(n);
        }
    }

    pub(crate) fn prim_until(&mut self)
        ensures
            final(self)@ == p_until(old(self)@),
    {
        reveal(p_until);
        let start = self.pop_fixup();
        let offset = start.wrapping_sub(self.def_len());
        self.compile(Instruction::BranchIfZero(offset));
    }

    pub(crate) fn prim_while(&mut self)
        ensures
            final(self)@ == p_while(old(self)@),
    {
        reveal(p_while);
        self.mark(Instruction::BranchIfZero(0));
    }

    pub(crate) fn prim_repeat(&mut self)
        ensures
            final(self)@ == p_repeat(old(self)@),
    {
        reveal(p_repeat);
        let at = self.pop_fixup() as usize;
        let start = self.pop_fixup();
        if self.current_def.is_some() {
            let back = start.wrapping_sub(self.def_len());
            self.compile(Instruction::Branch(back));
            let offset = self.def_len().wrapping_sub(at as i64);
            self.patch(at, Instruction::BranchIfZero(offset));
        }
    }
}

/// IF ... THEN compiles one branch, which jumps over what stands between.
pub proof fn law_if_then(v: VmV, w: WordV, body: Seq<Op>)
    requires
        v.def == Some(w),
        v.compiling,
        w.name.len() > 0,
        w.body.len() + body.len() < 0x7FFF_FFFF,
        0 < v.anon < i32::MAX,
    ensures
        ({
            let v1 = p_if(v);
            let v2 = VmV { def: Some(WordV { body: v1.def->0.body + body, ..w }), ..v1 };
            p_then(v2) == VmV {
                def: Some(
                    WordV {
                        body: w.body.push(Op::BranchIfZero((body.len() + 1) as i64)) + body,
                        ..w
                    },
                ),
                ..v
            }
        }),
{
    reveal(p_if);
    reveal(p_then);
    reveal(deeper);
    reveal(shallower);
    reveal(marked);
    reveal(patched);
    reveal(base::compiled);
    reveal(base::rpushed);
    reveal(base::unfixed);
    let v1 = p_if(v);
    let n = w.body.len();
    assert(v1.def->0.body == w.body.push(Op::BranchIfZero(0)));
    let v2 = VmV { def: Some(WordV { body: v1.def->0.body + body, ..w }), ..v1 };
    assert(v1.rstack == v.rstack.push(n as usize as i64));
    let (f, v3) = base::unfixed(v2);
    assert(f as usize == n);
    assert(v3.rstack =~= v.rstack);
    let b3 = v3.def->0.body;
    assert(b3[n as int] == Op::BranchIfZero(0));
    assert(body_len(v3) == n + 1 + body.len());
    let offset = body_len(v3).wrapping_sub(f as usize as i64);
    assert(offset == body.len() + 1);
    assert(b3.update(n as int, Op::BranchIfZero(offset)) =~= w.body.push(
        Op::BranchIfZero((body.len() + 1) as i64),
    ) + body);
    assert(v1.anon == v.anon + 1);
}

// ---------------------------------------------------------------------------
// Counted loops
// ---------------------------------------------------------------------------

/// The start of a counted loop ( limit start -- )
#[verifier::opaque]
pub open spec fn p_do_rt(v: VmV) -> VmV {
    let (index, v) = base::popped(v);
    let (limit, v) = base::popped(v);
    base::rpushed(base::rpushed(v, limit), index)
}

/// The end of a round of a counted loop ( -- done )
#[verifier::opaque]
pub open spec fn p_loop_rt(v: VmV) -> VmV {
    let (i, v) = base::rpopped(v);
    let index = i.wrapping_add(1);
    let limit = if v.rstack.len() == 0 {
        0
    } else {
        v.rstack.last()
    };
    if index >= limit {
        base::pushed(base::rpopped(v).1, -1i64)
    } else {
        base::pushed(base::rpushed(v, index), 0)
    }
}

impl VM {
    pub(crate) fn rt_do(&mut self)
        ensures
            final(self)@ == p_do_rt(old(self)@),
    {
        reveal(p_do_rt);
        let index = self.pop();
        let limit = self.pop();
        self.rpush(limit);
        self.rpush(index);
    }

    pub(crate) fn rt_loop(&mut self)
        ensures
            final(self)@ == p_loop_rt(old(self)@),
    {
        reveal(p_loop_rt);
        let index = self.rpop().wrapping_add(1);
        let n = self.rstack.len();
        let limit: Cell = if n == 0 {
            0
        } else {
            self.rstack[n - 1]
        };
        if index >= limit {
            let _ = self.rpop();
            self.push(-1);
        } else {
            self.rpush(index);
            self.push(0);
        }
    }
}

/// A round of a counted loop before the last one counts up and goes on; the last one clears the
/// return stack and ends the loop.
pub proof fn law_loop_counts(v: VmV, limit: i64, index: i64)
    requires
        index < limit,
    ensures
        ({
            let w = base::rpushed(base::rpushed(v, limit), index);
            if index + 1 < limit {
                p_loop_rt(w) == base::pushed(base::rpushed(base::rpushed(v, limit), (index + 1) as i64), 0)
            } else {
                p_loop_rt(w) == base::pushed(v, -1i64)
            }
        }),
{
    reveal(p_loop_rt);
    reveal(base::rpushed);
    reveal(base::rpopped);
    reveal(base::pushed);
    assert(v.rstack.push(limit).push(index).drop_last() =~= v.rstack.push(limit));
    assert(v.rstack.push(limit).drop_last() =~= v.rstack);
}

// ---------------------------------------------------------------------------
// Strings and comments
// ---------------------------------------------------------------------------

/// ." text" ( -- )
#[verifier::opaque]
pub open spec fn p_dot_quote(v: VmV) -> VmV {
    let (s, v) = base::parsed(v, '"');
    if v.compiling {
        base::compiled(v, Op::StringLit(s))
    } else {
        base::emit(v, s)
    }
}

/// ( comment )
#[verifier::opaque]
pub open spec fn p_paren(v: VmV) -> VmV {
    base::parsed(v, ')').1
}

/// \ comment to the end of the line
#[verifier::opaque]
pub open spec fn p_backslash(v: VmV) -> VmV {
    VmV { pos: v.input.len() as usize, ..v }
}

impl VM {
    pub(crate) fn prim_dot_quote(&mut self)
        ensures
            final(self)@ == p_dot_quote(old(self)@),
    {
        reveal(p_dot_quote);
        let s = self.parse_until('"');
        if self.compiling {
            self.compile(Instruction::StringLit(s));
        } else {
            self.emit_str(s.as_str());
        }
    }

    pub(crate) fn prim_paren(&mut self)
        ensures
            final(self)@ == p_paren(old(self)@),
    {
        reveal(p_paren);
        let _ = self.parse_until(')');
    }

    pub(crate) fn prim_backslash(&mut self)
        ensures
            final(self)@ == p_backslash(old(self)@),
    {
        reveal(p_backslash);
        self.input_pos = self.input_buffer.len();
    }
}

} // verus!
