//! Stacks, output, input and dictionary lookup.

use crate::text;
use crate::text::{from_chars, position_from, same_text, text, to_chars, to_upper};
use crate::types;
use crate::types::{Cell, Entry, Instruction, Op, WordV};
use crate::vm::state::{Frame, FrameV, Printed, Request, RequestV, VmV, VM};
use vstd::prelude::*;

verus! {

// ---------------------------------------------------------------------------
// Output
// ---------------------------------------------------------------------------

/// The machine after output: to the output buffer if there is one, else to the console.
#[verifier::opaque]
pub open spec fn emit(v: VmV, s: Seq<char>) -> VmV {
    match v.output {
        Some(b) => VmV { output: Some(b + s), ..v },
        None => VmV { console: v.console.push((false, s)), ..v },
    }
}

/// The machine after output that goes to the console in any case.
#[verifier::opaque]
pub open spec fn printed(v: VmV, s: Seq<char>) -> VmV {
    VmV { console: v.console.push((false, s)), ..v }
}

/// The machine after a message on the error stream.
#[verifier::opaque]
pub open spec fn complained(v: VmV, s: Seq<char>) -> VmV {
    VmV { console: v.console.push((true, s)), ..v }
}

/// The machine after a failure from which it does not recover.
#[verifier::opaque]
pub open spec fn crash(v: VmV) -> VmV {
    VmV { crashed: true, ..v }
}

// ---------------------------------------------------------------------------
// Stacks
// ---------------------------------------------------------------------------

/// The machine with one more cell on the stack.
#[verifier::opaque]
pub open spec fn pushed(v: VmV, x: i64) -> VmV {
    VmV { stack: v.stack.push(x), ..v }
}

/// The top of the stack, and the machine without it. Of an empty stack the top is 0, and an error
/// is shown.
#[verifier::opaque]
pub open spec fn popped(v: VmV) -> (i64, VmV) {
    if v.stack.len() == 0 {
        (0, emit(v, "error: stack underflow\n"@))
    } else {
        (v.stack.last(), VmV { stack: v.stack.drop_last(), ..v })
    }
}

/// The machine with one more cell on the return stack.
#[verifier::opaque]
pub open spec fn rpushed(v: VmV, x: i64) -> VmV {
    VmV { rstack: v.rstack.push(x), ..v }
}

/// The top of the return stack, and the machine without it. Of an empty stack the top is 0, and
/// an error is shown.
#[verifier::opaque]
pub open spec fn rpopped(v: VmV) -> (i64, VmV) {
    if v.rstack.len() == 0 {
        (0, emit(v, "error: return stack underflow\n"@))
    } else {
        (v.rstack.last(), VmV { rstack: v.rstack.drop_last(), ..v })
    }
}

/// The top of the return stack, and the machine without it. Of an empty stack the top is 0.
#[verifier::opaque]
pub open spec fn unfixed(v: VmV) -> (i64, VmV) {
    if v.rstack.len() == 0 {
        (0, v)
    } else {
        (v.rstack.last(), VmV { rstack: v.rstack.drop_last(), ..v })
    }
}

// ---------------------------------------------------------------------------
// Frames and requests
// ---------------------------------------------------------------------------

/// The machine with work begun on top of what it was doing.
#[verifier::opaque]
pub open spec fn framed(v: VmV, f: FrameV) -> VmV {
    VmV { frames: v.frames.push(f), ..v }
}

/// The machine after it has ended its last work.
#[verifier::opaque]
pub open spec fn unframed(v: VmV) -> VmV {
    if v.frames.len() == 0 {
        v
    } else {
        VmV { frames: v.frames.drop_last(), ..v }
    }
}

/// The machine with a request to its host.
#[verifier::opaque]
pub open spec fn asked(v: VmV, r: RequestV) -> VmV {
    VmV { pending: Some(r), ..v }
}

/// The machine after it has begun to interpret a line. The rest of a line that it was
/// interpreting is forgotten.
#[verifier::opaque]
pub open spec fn lined(v: VmV, line: Seq<char>) -> VmV {
    framed(VmV { input: line, pos: 0, ..v }, FrameV::Line)
}

// ---------------------------------------------------------------------------
// Input
// ---------------------------------------------------------------------------

/// True of the characters between words.
pub open spec fn is_blank(c: char) -> bool {
    c == ' ' || c == '\t' || c == '\n' || c == '\r' || c == '\u{c}'
}

/// The first position from `i` on that is not blank, or the length.
pub open spec fn blank_end(s: Seq<char>, i: int) -> int
    decreases s.len() - i,
{
    if i >= s.len() || !is_blank(s[i]) {
        i
    } else {
        blank_end(s, i + 1)
    }
}

/// The first position from `i` on that is blank, or the length.
pub open spec fn token_end(s: Seq<char>, i: int) -> int
    decreases s.len() - i,
{
    if i >= s.len() || is_blank(s[i]) {
        i
    } else {
        token_end(s, i + 1)
    }
}

/// The next word of the input, if there is one, and the machine after it.
#[verifier::opaque]
pub open spec fn worded(v: VmV) -> (Option<Seq<char>>, VmV) {
    let a = blank_end(v.input, v.pos as int);
    let b = token_end(v.input, a);
    if a >= v.input.len() {
        (None, VmV { pos: a as usize, ..v })
    } else {
        (Some(v.input.subrange(a, b)), VmV { pos: b as usize, ..v })
    }
}

/// The position after one space, if there is one.
pub open spec fn after_space(s: Seq<char>, i: int) -> int {
    if i < s.len() && s[i] == ' ' {
        i + 1
    } else {
        i
    }
}

/// The input up to a delimiter, without one leading space, and the machine after the delimiter.
#[verifier::opaque]
pub open spec fn parsed(v: VmV, c: char) -> (Seq<char>, VmV) {
    let a = after_space(v.input, v.pos as int);
    let b = text::index_from(v.input, c, a);
    if a >= v.input.len() {
        (Seq::empty(), VmV { pos: a as usize, ..v })
    } else if b < v.input.len() {
        (v.input.subrange(a, b), VmV { pos: (b + 1) as usize, ..v })
    } else {
        (v.input.subrange(a, b), VmV { pos: b as usize, ..v })
    }
}

/// The position of the brace that closes `depth` open ones, from `i` on, or the length.
pub open spec fn brace_end(s: Seq<char>, i: int, depth: int) -> int
    decreases s.len() - i,
{
    if i >= s.len() {
        i
    } else if s[i] == '{' {
        brace_end(s, i + 1, depth + 1)
    } else if s[i] == '}' {
        if depth == 1 {
            i
        } else {
            brace_end(s, i + 1, depth - 1)
        }
    } else {
        brace_end(s, i + 1, depth)
    }
}

/// The input up to the brace that closes the one before it, without one leading space, and the
/// machine after that brace.
#[verifier::opaque]
pub open spec fn braced(v: VmV) -> (Seq<char>, VmV) {
    let a = after_space(v.input, v.pos as int);
    let b = brace_end(v.input, a, 1);
    if a >= v.input.len() {
        (Seq::empty(), VmV { pos: a as usize, ..v })
    } else if b < v.input.len() {
        (v.input.subrange(a, b), VmV { pos: (b + 1) as usize, ..v })
    } else {
        (v.input.subrange(a, b), VmV { pos: b as usize, ..v })
    }
}

// ---------------------------------------------------------------------------
// The dictionary
// ---------------------------------------------------------------------------

/// The last of the first `n` entries that is visible and has this name.
pub open spec fn found_in(d: Seq<WordV>, name: Seq<char>, n: int) -> Option<usize>
    decreases n,
{
    if n <= 0 {
        None
    } else if !d[n - 1].hidden && d[n - 1].name == name {
        Some((n - 1) as usize)
    } else {
        found_in(d, name, n - 1)
    }
}

/// The entry that a name stands for, in capitals: the last visible one.
#[verifier::opaque]
pub open spec fn found(v: VmV, name: Seq<char>) -> Option<usize> {
    found_in(v.dict, text::upper(name), v.dict.len() as int)
}

/// The machine with one more word.
#[verifier::opaque]
pub open spec fn defined(v: VmV, w: WordV) -> VmV {
    VmV { dict: v.dict.push(w), ..v }
}

/// A visible word that is not immediate.
pub open spec fn word_of(name: Seq<char>, body: Seq<Op>) -> WordV {
    WordV { name: text::upper(name), immediate: false, hidden: false, body }
}

/// The machine with one more instruction in the word that it defines, if it defines one.
#[verifier::opaque]
pub open spec fn compiled(v: VmV, op: Op) -> VmV {
    match v.def {
        Some(w) => VmV { def: Some(WordV { body: w.body.push(op), ..w }), ..v },
        None => v,
    }
}

/// The machine with one more text for compiled words, and its number.
#[verifier::opaque]
pub open spec fn stored(v: VmV, s: Seq<char>) -> (i64, VmV) {
    (v.codes.len() as usize as i64, VmV { codes: v.codes.push(s), ..v })
}

/// A word entry in the dictionary is there, and no earlier visible one has its name.
pub proof fn law_last_definition_wins(v: VmV, name: Seq<char>)
    ensures
        match found(v, name) {
            Some(i) => {
                &&& i < v.dict.len() || v.dict.len() > usize::MAX
                &&& v.dict.len() <= usize::MAX ==> !v.dict[i as int].hidden && v.dict[i as int].name
                    == text::upper(name) && forall|j: int|
                    i < j < v.dict.len() ==> v.dict[j].hidden || (#[trigger] v.dict[j]).name
                        != text::upper(name)
            },
            None => forall|j: int|
                0 <= j < v.dict.len() ==> v.dict[j].hidden || (#[trigger] v.dict[j]).name != text::upper(
                    name,
                ),
        },
{
    reveal(found);
    lemma_found_in(v.dict, text::upper(name), v.dict.len() as int);
}

proof fn lemma_found_in(d: Seq<WordV>, name: Seq<char>, n: int)
    requires
        0 <= n <= d.len(),
    ensures
        match found_in(d, name, n) {
            Some(i) => n <= usize::MAX ==> i < n && !d[i as int].hidden && d[i as int].name == name
                && forall|j: int| i < j < n ==> d[j].hidden || (#[trigger] d[j]).name != name,
            None => forall|j: int| 0 <= j < n ==> d[j].hidden || (#[trigger] d[j]).name != name,
        },
    decreases n,
{
    if n > 0 {
        lemma_found_in(d, name, n - 1);
    }
}

// ---------------------------------------------------------------------------
// Operations
// ---------------------------------------------------------------------------

impl VM {
    /// Puts out a text: to the output buffer if there is one, else to the console.
    pub fn emit_str(&mut self, s: &str)
        ensures
            final(self)@ == emit(old(self)@, s@),
    {
        reveal(emit);
        let ghost v = self@;
        match self.output_buffer.take() {
            Some(b) => {
                let mut b = b;
                b.append(s);
                self.output_buffer = Some(b);
            },
            None => {
                let p = Printed { error: false, text: text(s) };
                self.console.push(p);
                assert(self@.console =~= v.console.push((false, s@)));
            },
        }
    }

    /// Puts out a character.
    pub fn emit_char(&mut self, c: char)
        ensures
            final(self)@ == emit(old(self)@, text::one(c)),
    {
        let mut s = String::new();
        s.push(c);
        assert(s@ =~= text::one(c));
        self.emit_str(s.as_str());
    }

    /// Puts out a text to the console in any case.
    pub fn print_str(&mut self, s: &str)
        ensures
            final(self)@ == printed(old(self)@, s@),
    {
        reveal(printed);
        let ghost v = self@;
        self.console.push(Printed { error: false, text: text(s) });
        assert(self@.console =~= v.console.push((false, s@)));
    }

    /// Puts out a message on the error stream.
    pub fn complain(&mut self, s: &str)
        ensures
            final(self)@ == complained(old(self)@, s@),
    {
        reveal(complained);
        let ghost v = self@;
        self.console.push(Printed { error: true, text: text(s) });
        assert(self@.console =~= v.console.push((true, s@)));
    }

    /// Stops for good.
    pub fn crash(&mut self)
        ensures
            final(self)@ == crash(old(self)@),
    {
        reveal(crash);
        self.crashed = true;
    }

    pub fn push(&mut self, x: Cell)
        ensures
            final(self)@ == pushed(old(self)@, x),
    {
        reveal(pushed);
        self.stack.push(x);
    }

    /// Takes the top of the stack; 0 with an error if there is none.
    pub fn pop(&mut self) -> (x: Cell)
        ensures
            (x, final(self)@) == popped(old(self)@),
    {
        reveal(popped);
        match self.stack.pop() {
            Some(x) => x,
            None => {
                self.emit_str("error: stack underflow\n");
                0
            },
        }
    }

    pub fn rpush(&mut self, x: Cell)
        ensures
            final(self)@ == rpushed(old(self)@, x),
    {
        reveal(rpushed);
        self.rstack.push(x);
    }

    /// Takes the top of the return stack; 0 with an error if there is none.
    pub fn rpop(&mut self) -> (x: Cell)
        ensures
            (x, final(self)@) == rpopped(old(self)@),
    {
        reveal(rpopped);
        match self.rstack.pop() {
            Some(x) => x,
            None => {
                self.emit_str("error: return stack underflow\n");
                0
            },
        }
    }

    /// Takes the top of the return stack; 0 if there is none.
    pub fn pop_fixup(&mut self) -> (x: Cell)
        ensures
            (x, final(self)@) == unfixed(old(self)@),
    {
        reveal(unfixed);
        match self.rstack.pop() {
            Some(x) => x,
            None => 0,
        }
    }

    /// Begins work on top of what is at work.
    pub fn enter(&mut self, f: Frame)
        ensures
            final(self)@ == framed(old(self)@, f@),
    {
        reveal(framed);
        let ghost v = self@;
        self.frames.push(f);
        assert(self@.frames =~= v.frames.push(f@));
    }

    /// Ends the last work.
    pub fn leave(&mut self) -> (f: Option<Frame>)
        ensures
            final(self)@ == unframed(old(self)@),
            f.is_some() == (old(self)@.frames.len() > 0),
            f matches Some(x) ==> x@ == old(self)@.frames.last(),
    {
        reveal(unframed);
        let ghost v = self@;
        let f = self.frames.pop();
        assert(f matches Some(x) ==> v.frames.last() == x@);
        assert(self@.frames =~= (if v.frames.len() == 0 {
            v.frames
        } else {
            v.frames.drop_last()
        }));
        f
    }

    /// Asks the host for something.
    pub fn ask(&mut self, r: Request)
        ensures
            final(self)@ == asked(old(self)@, r@),
    {
        reveal(asked);
        self.pending = Some(r);
    }

    /// Begins to interpret a line.
    pub fn begin_line(&mut self, line: &str)
        ensures
            final(self)@ == lined(old(self)@, line@),
    {
        reveal(lined);
        self.input_buffer = to_chars(line);
        self.input_pos = 0;
        self.enter(Frame::Line);
    }

    fn blank(c: char) -> (b: bool)
        ensures
            b == is_blank(c),
    {
        c == ' ' || c == '\t' || c == '\n' || c == '\r' || c == '\u{c}'
    }

    /// Takes the next word of the input.
    pub fn next_word(&mut self) -> (w: Option<String>)
        ensures
            (text::opt_text(w), final(self)@) == worded(old(self)@),
    {
        reveal(worded);
        let n = self.input_buffer.len();
        let ghost s = self.input_buffer@;
        let ghost p = self.input_pos as int;
        let mut a = self.input_pos;
        while a < n && Self::blank(self.input_buffer[a])
            invariant
                n == s.len(),
                s == self.input_buffer@,
                a <= n || a == p,
                a >= p,
                blank_end(s, a as int) == blank_end(s, p),
            decreases n - a,
        {
            a = a + 1;
        }
        if a >= n {
            self.input_pos = a;
            return None;
        }
        let mut b = a;
        while b < n && !Self::blank(self.input_buffer[b])
            invariant
                a <= b <= n,
                n == s.len(),
                s == self.input_buffer@,
                token_end(s, b as int) == token_end(s, a as int),
            decreases n - b,
        {
            b = b + 1;
        }
        let w = from_chars(&self.input_buffer, a, b);
        self.input_pos = b;
        Some(w)
    }

    fn skip_one_space(&self) -> (a: usize)
        ensures
            a == after_space(self.input_buffer@, self.input_pos as int),
            a <= self.input_buffer@.len() || a == self.input_pos,
    {
        if self.input_pos < self.input_buffer.len() && self.input_buffer[self.input_pos] == ' ' {
            self.input_pos + 1
        } else {
            self.input_pos
        }
    }

    /// Takes the input up to a delimiter, which is skipped.
    pub fn parse_until(&mut self, delim: char) -> (r: String)
        ensures
            (r@, final(self)@) == parsed(old(self)@, delim),
    {
        reveal(parsed);
        let a = self.skip_one_space();
        let n = self.input_buffer.len();
        if a >= n {
            self.input_pos = a;
            let r = String::new();
            assert(r@ =~= Seq::<char>::empty());
            return r;
        }
        let b = position_from(&self.input_buffer, delim, a);
        let r = from_chars(&self.input_buffer, a, b);
        self.input_pos = if b < n {
            b + 1
        } else {
            b
        };
        r
    }

    /// Takes the input up to the brace that closes the one before it.
    pub fn parse_balanced_braces(&mut self) -> (r: String)
        ensures
            (r@, final(self)@) == braced(old(self)@),
    {
        reveal(braced);
        let a = self.skip_one_space();
        let n = self.input_buffer.len();
        if a >= n {
            self.input_pos = a;
            let r = String::new();
            assert(r@ =~= Seq::<char>::empty());
            return r;
        }
        let ghost s = self.input_buffer@;
        let mut b = a;
        let mut depth: u128 = 1;
        let mut open = true;
        while b < n && open
            invariant
                a <= b <= n,
                n == s.len(),
                s == self.input_buffer@,
                1 <= depth <= 1 + b - a,
                open ==> brace_end(s, b as int, depth as int) == brace_end(s, a as int, 1),
                !open ==> b < n && brace_end(s, a as int, 1) == b,
            decreases n - b, (if open {
                1int
            } else {
                0
            }),
        {
            let c = self.input_buffer[b];
            if c == '}' && depth == 1 {
                open = false;
            } else {
                if c == '{' {
                    depth = depth + 1;
                } else if c == '}' {
                    depth = depth - 1;
                }
                b = b + 1;
            }
        }
        let r = from_chars(&self.input_buffer, a, b);
        self.input_pos = if b < n {
            b + 1
        } else {
            b
        };
        r
    }

    /// The entry that a name stands for: the last visible one.
    pub fn find_word(&self, name: &str) -> (r: Option<usize>)
        ensures
            r == found(self@, name@),
            r matches Some(i) ==> i < self.dictionary@.len(),
    {
        reveal(found);
        let up = to_upper(name);
        proof {
            assert(up@ == text::upper(name@));
        }
        let mut n = self.dictionary.len();
        while n > 0
            invariant
                n <= self.dictionary@.len(),
                up@ == text::upper(name@),
                found_in(self@.dict, text::upper(name@), n as int) == found(self@, name@),
            decreases n,
        {
            assert(self@.dict[n - 1] == self.dictionary@[n - 1]@);
            if !self.dictionary[n - 1].hidden && same_text(
                self.dictionary[n - 1].name.as_str(),
                up.as_str(),
            ) {
                return Some(n - 1);
            }
            n = n - 1;
        }
        None
    }

    /// Adds a word to the dictionary.
    pub fn define(&mut self, e: Entry)
        ensures
            final(self)@ == defined(old(self)@, e@),
    {
        reveal(defined);
        let ghost v = self@;
        self.dictionary.push(e);
        assert(self@.dict =~= v.dict.push(e@));
    }

    /// Adds a word that is visible and not immediate, with a body of one instruction.
    pub fn define_simple(&mut self, name: &str, op: Instruction)
        ensures
            final(self)@ == defined(old(self)@, word_of(name@, seq![op@])),
    {
        let mut body: Vec<Instruction> = Vec::new();
        body.push(op);
        assert(types::ops(body@) =~= seq![op@]);
        self.define(Entry { name: to_upper(name), immediate: false, hidden: false, body });
    }

    /// Adds an instruction to the word that is being defined, if there is one.
    pub fn compile(&mut self, op: Instruction)
        ensures
            final(self)@ == compiled(old(self)@, op@),
    {
        reveal(compiled);
        match self.current_def.take() {
            Some(w) => {
                let mut w = w;
                let ghost before = types::ops(w.body@);
                w.body.push(op);
                assert(types::ops(w.body@) =~= before.push(op@));
                self.current_def = Some(w);
            },
            None => {},
        }
    }

    /// Keeps a text for compiled words: its number.
    pub fn store_text(&mut self, s: String) -> (i: Cell)
        ensures
            (i, final(self)@) == stored(old(self)@, s@),
    {
        reveal(stored);
        let ghost v = self@;
        let i = self.code_strings.len() as Cell;
        self.code_strings.push(s);
        assert(self@.codes =~= v.codes.push(s@));
        i
    }
}

} // verus!
