//! Words on fitness, mutation and evolution. The host makes up the changes; the machine tries them
//! out, keeps or undoes them, and remembers how.

use crate::features::fitness;
use crate::features::fitness::{format_leaderboard, FitV, FitnessTracker};
use crate::mesh::api;
use crate::text;
use crate::text::{push_i64, take_chars, text, to_upper};
use crate::types;
use crate::types::{clone_body, Instruction, Op, WordV};
use crate::vm::base;
use crate::vm::goal_words;
use crate::vm::state::{MutationRecord, Purpose, RecordV, Reply, ReplyV, Request, RequestV, VmV, VM};
use vstd::prelude::*;

verus! {

/// The numbers of the built-in words that compiled words on evolution run.
pub const P_MUTATE_WORD_RT: usize = 104;

pub const P_BENCHMARK_RT: usize = 105;

/// The time that a word may take while its behaviour is observed, in milliseconds.
pub const PROBE_MILLIS: u64 = 100;

// ---------------------------------------------------------------------------
// Fitness
// ---------------------------------------------------------------------------

/// The machine with another fitness.
#[verifier::opaque]
pub open spec fn with_fitness(v: VmV, f: FitV) -> VmV {
    VmV { fitness: f, ..v }
}

/// FITNESS ( -- score )
#[verifier::opaque]
pub open spec fn p_fitness(v: VmV) -> VmV {
    base::pushed(v, v.fitness.score)
}

/// LEADERBOARD ( -- )
#[verifier::opaque]
pub open spec fn p_leaderboard(v: VmV) -> VmV {
    match v.mesh {
        Some(m) => base::emit(
            v,
            fitness::board_text(m.id, v.fitness.score as int, api::peer_scores(m.peers)),
        ),
        None => base::emit(
            v,
            "  (offline) score="@ + text::dec_int(v.fitness.score as int) + "\n"@,
        ),
    }
}

/// RATE ( task score -- )
#[verifier::opaque]
pub open spec fn p_rate(v: VmV) -> VmV {
    let (x, v) = base::popped(v);
    let (_task, v) = base::popped(v);
    base::emit(
        with_fitness(v, (FitV { score: v.fitness.score.wrapping_add(x), ..v.fitness })),
        "rated: fitness adjusted by "@ + text::dec_int(x as int) + "\n"@,
    )
}

/// AUTO-EVOLVE ( -- )
#[verifier::opaque]
pub open spec fn p_auto_evolve(v: VmV) -> VmV {
    base::emit(
        with_fitness(v, (FitV { auto_evolve: !v.fitness.auto_evolve, ..v.fitness })),
        if v.fitness.auto_evolve {
            "auto-evolve: OFF\n"@
        } else {
            "auto-evolve: ON\n"@
        },
    )
}

/// The machine with a benchmark.
#[verifier::opaque]
pub open spec fn benchmark_set(v: VmV, code: Seq<char>) -> VmV {
    base::emit(
        with_fitness(v, (FitV { benchmark_code: Some(code), ..v.fitness })),
        "benchmark set: "@ + text::clip(code, 50) + "\n"@,
    )
}

/// BENCHMARK" code" ( -- )
#[verifier::opaque]
pub open spec fn p_benchmark(v: VmV) -> VmV {
    let (s, v) = base::parsed(v, '"');
    if v.compiling {
        goal_words::with_text_op(v, s, P_BENCHMARK_RT)
    } else {
        benchmark_set(v, s)
    }
}

/// BENCHMARK" in a compiled word.
#[verifier::opaque]
pub open spec fn p_benchmark_rt(v: VmV) -> VmV {
    let (i, v) = base::popped(v);
    match goal_words::code_at(v, i as usize) {
        Some(s) => benchmark_set(v, s),
        None => v,
    }
}

impl VM {
    /// Takes the fitness out, to be put back changed.
    pub(crate) fn take_fitness(&mut self) -> (f: FitnessTracker)
        ensures
            f@ == old(self)@.fitness,
            with_fitness(final(self)@, f@) == old(self)@,
            forall|n: FitV| #[trigger] with_fitness(final(self)@, n) == with_fitness(old(self)@, n),
    {
        reveal(with_fitness);
        let mut f = FitnessTracker::new();
        std::mem::swap(&mut self.fitness, &mut f);
        f
    }

    /// Puts the fitness back.
    pub(crate) fn put_fitness(&mut self, f: FitnessTracker)
        ensures
            final(self)@ == with_fitness(old(self)@, f@),
    {
        reveal(with_fitness);
        self.fitness = f;
    }

    pub(crate) fn prim_fitness(&mut self)
        ensures
            final(self)@ == p_fitness(old(self)@),
    {
        reveal(p_fitness);
        let x = self.fitness.score;
        self.push(x);
    }

    pub(crate) fn prim_leaderboard(&mut self)
        ensures
            final(self)@ == p_leaderboard(old(self)@),
    {
        reveal(p_leaderboard);
        let s = match &self.mesh {
            Some(m) => {
                let peers = m.peer_fitness_list();
                let id = m.id_bytes();
                format_leaderboard(&id, self.fitness.score, &peers)
            },
            None => {
                let mut s = text("  (offline) score=");
                push_i64(&mut s, self.fitness.score);
                s.append("\n");
                s
            },
        };
        self.emit_str(s.as_str());
    }

    pub(crate) fn prim_rate(&mut self)
        ensures
            final(self)@ == p_rate(old(self)@),
    {
        reveal(p_rate);
        let x = self.pop();
        let _ = self.pop();
        let mut f = self.take_fitness();
        f.record_rating(x);
        self.put_fitness(f);
        let mut s = text("rated: fitness adjusted by ");
        push_i64(&mut s, x);
        s.append("\n");
        self.emit_str(s.as_str());
    }

    pub(crate) fn prim_auto_evolve(&mut self)
        ensures
            final(self)@ == p_auto_evolve(old(self)@),
    {
        reveal(p_auto_evolve);
        let on = !self.fitness.auto_evolve;
        let mut f = self.take_fitness();
        f.auto_evolve = on;
        self.put_fitness(f);
        if on {
            self.emit_str("auto-evolve: ON\n");
        } else {
            self.emit_str("auto-evolve: OFF\n");
        }
    }

    fn set_benchmark(&mut self, code: String)
        ensures
            final(self)@ == benchmark_set(old(self)@, code@),
    {
        reveal(benchmark_set);
        let short = take_chars(code.as_str(), 50);
        let mut f = self.take_fitness();
        f.benchmark_code = Some(code);
        self.put_fitness(f);
        let mut s = text("benchmark set: ");
        s.append(short.as_str());
        s.append("\n");
        self.emit_str(s.as_str());
    }

    pub(crate) fn prim_benchmark(&mut self)
        ensures
            final(self)@ == p_benchmark(old(self)@),
    {
        reveal(p_benchmark);
        let s = self.parse_until('"');
        if self.compiling {
            self.compile_text_op(s, P_BENCHMARK_RT);
        } else {
            self.set_benchmark(s);
        }
    }

    pub(crate) fn rt_benchmark(&mut self)
        ensures
            final(self)@ == p_benchmark_rt(old(self)@),
    {
        reveal(p_benchmark_rt);
        let i = self.pop();
        if let Some(s) = self.text_at(i as usize) {
            self.set_benchmark(s);
        }
    }
}

// ---------------------------------------------------------------------------
// Changes to words
// ---------------------------------------------------------------------------

/// A change as text.
pub open spec fn record_text(r: RecordV) -> Seq<char> {
    r.name + " ["@ + r.strategy + "] "@ + r.description
}

/// The machine with another body of a word.
#[verifier::opaque]
pub open spec fn with_body(v: VmV, i: usize, body: Seq<Op>) -> VmV {
    VmV { dict: v.dict.update(i as int, WordV { body, ..v.dict[i as int] }), ..v }
}

/// The machine with one more change to remember.
#[verifier::opaque]
pub open spec fn remembered(v: VmV, r: RecordV) -> VmV {
    VmV { history: v.history.push(r), ..v }
}

/// The machine without the last change.
#[verifier::opaque]
pub open spec fn unremembered(v: VmV) -> VmV {
    VmV { history: v.history.drop_last(), ..v }
}

/// What is remembered of a change.
pub open spec fn record_of(
    v: VmV,
    i: usize,
    strategy: Seq<char>,
    description: Seq<char>,
) -> RecordV {
    RecordV {
        index: i,
        name: v.dict[i as int].name,
        strategy,
        description,
        old_body: v.dict[i as int].body,
    }
}

/// A change that a host hands out, and the machine with it: none if the word is not there.
#[verifier::opaque]
pub open spec fn changed(v: VmV, r: ReplyV) -> Option<(RecordV, VmV)> {
    match r {
        ReplyV::Changed { index, body, strategy, description } => if index < v.dict.len() {
            Some((record_of(v, index, strategy, description), with_body(v, index, body)))
        } else {
            None
        },
        _ => None,
    }
}

/// The machine with a change undone, if its word is still there.
#[verifier::opaque]
pub open spec fn undone(v: VmV, r: RecordV) -> VmV {
    if r.index < v.dict.len() {
        with_body(v, r.index, r.old_body)
    } else {
        v
    }
}

/// UNDO-MUTATE ( -- )
#[verifier::opaque]
pub open spec fn p_undo(v: VmV) -> VmV {
    if v.history.len() == 0 {
        base::emit(v, "nothing to undo\n"@)
    } else {
        let r = v.history.last();
        let w = unremembered(v);
        if r.index < v.dict.len() {
            base::emit(undone(w, r), "undone: "@ + r.name + " ["@ + r.strategy + "]\n"@)
        } else {
            w
        }
    }
}

/// The text of the changes, one to a line.
pub open spec fn record_lines(s: Seq<RecordV>) -> Seq<char>
    decreases s.len(),
{
    if s.len() == 0 {
        Seq::empty()
    } else {
        record_lines(s.drop_last()) + (record_text(s.last()) + "\n"@)
    }
}

/// MUTATIONS ( -- )
#[verifier::opaque]
pub open spec fn p_mutations(v: VmV) -> VmV {
    if v.history.len() == 0 {
        base::emit(v, "  (no mutations)\n"@)
    } else {
        base::emit(v, record_lines(v.history))
    }
}

/// Asks the host for a change.
pub open spec fn change_wanted(index: Option<usize>, purpose: Purpose, seen: Seq<char>) -> RequestV {
    RequestV::Mutate { index, purpose, average: 0, before: 0, seen }
}

/// MUTATE ( -- )
#[verifier::opaque]
pub open spec fn p_mutate_rand(v: VmV) -> VmV {
    base::asked(v, change_wanted(None, Purpose::Tell, Seq::empty()))
}

/// MUTATE-RANDOM ( -- flag )
#[verifier::opaque]
pub open spec fn p_mutate_random(v: VmV) -> VmV {
    base::asked(v, change_wanted(None, Purpose::Flag, Seq::empty()))
}

/// A change to a word with a name.
#[verifier::opaque]
pub open spec fn named_change(v: VmV, name: Seq<char>) -> VmV {
    let upper = text::upper(name);
    match base::found(v, upper) {
        Some(i) => base::asked(v, change_wanted(Some(i), Purpose::Named, upper)),
        None => base::emit(v, upper + "?\n"@),
    }
}

/// MUTATE-WORD" name" ( -- )
#[verifier::opaque]
pub open spec fn p_mutate_word(v: VmV) -> VmV {
    let (s, v) = base::parsed(v, '"');
    if v.compiling {
        goal_words::with_text_op(v, s, P_MUTATE_WORD_RT)
    } else {
        named_change(v, s)
    }
}

/// MUTATE-WORD" in a compiled word.
#[verifier::opaque]
pub open spec fn p_mutate_word_rt(v: VmV) -> VmV {
    let (i, v) = base::popped(v);
    match goal_words::code_at(v, i as usize) {
        Some(s) => named_change(v, s),
        None => v,
    }
}

/// MUTATE or MUTATE-WORD" with the change: `refusal` if no word can be changed, `failure` if no
/// change was found.
#[verifier::opaque]
pub open spec fn change_told(v: VmV, r: ReplyV, refusal: Seq<char>, failure: Seq<char>) -> VmV {
    match changed(v, r) {
        Some((rec, w)) => remembered(
            base::emit(w, "mutated: "@ + record_text(rec) + "\n"@),
            rec,
        ),
        None => if r is Refused {
            base::emit(v, refusal)
        } else {
            base::emit(v, failure)
        },
    }
}

/// MUTATE-RANDOM with the change.
#[verifier::opaque]
pub open spec fn change_flagged(v: VmV, r: ReplyV) -> VmV {
    match changed(v, r) {
        Some((rec, w)) => base::pushed(remembered(w, rec), -1i64),
        None => base::pushed(v, 0),
    }
}

impl VM {
    pub(crate) fn format_record(r: &MutationRecord) -> (s: String)
        ensures
            s@ == record_text(r@),
    {
        let mut s = r.word_name.clone();
        s.append(" [");
        s.append(r.strategy.as_str());
        s.append("] ");
        s.append(r.description.as_str());
        s
    }

    fn set_body(&mut self, i: usize, body: Vec<Instruction>) -> (was: Vec<Instruction>)
        requires
            i < old(self).dictionary@.len(),
        ensures
            types::ops(was@) == old(self)@.dict[i as int].body,
            final(self)@ == with_body(old(self)@, i, types::ops(body@)),
    {
        reveal(with_body);
        let ghost d = self@.dict;
        let was = clone_body(&self.dictionary[i].body);
        let e = crate::types::Entry {
            name: self.dictionary[i].name.clone(),
            immediate: self.dictionary[i].immediate,
            hidden: self.dictionary[i].hidden,
            body,
        };
        assert(e@ == (WordV { body: types::ops(body@), ..d[i as int] }));
        let ghost w = e@;
        self.dictionary.set(i, e);
        assert(self@.dict =~= d.update(i as int, w));
        was
    }

    pub(crate) fn remember(&mut self, r: MutationRecord)
        ensures
            final(self)@ == remembered(old(self)@, r@),
    {
        reveal(remembered);
        let ghost h = self@.history;
        let ghost x = r@;
        self.mutation_history.push(r);
        assert(self@.history =~= h.push(x));
    }

    /// Applies a change.
    pub(crate) fn apply_change(&mut self, r: Reply) -> (rec: Option<MutationRecord>)
        ensures
            match changed(old(self)@, r@) {
                Some((x, w)) => rec matches Some(y) && y@ == x && final(self)@ == w,
                None => rec.is_none() && final(self)@ == old(self)@,
            },
    {
        reveal(changed);
        match r {
            Reply::Changed { index, body, strategy, description } => {
                if index < self.dictionary.len() {
                    let word_name = self.dictionary[index].name.clone();
                    assert(self@.dict[index as int] == self.dictionary@[index as int]@);
                    let old_body = self.set_body(index, body);
                    Some(
                        MutationRecord { word_index: index, word_name, strategy, description, old_body },
                    )
                } else {
                    None
                }
            },
            _ => None,
        }
    }

    pub(crate) fn undo(&mut self, index: usize, old_body: Vec<Instruction>)
        ensures
            forall|r: RecordV|
                r.index == index && r.old_body == types::ops(old_body@) ==> final(self)@ == #[trigger] undone(
                    old(self)@,
                    r,
                ),
    {
        reveal(undone);
        if index < self.dictionary.len() {
            let _ = self.set_body(index, old_body);
        }
    }

    fn forget_change(&mut self) -> (r: Option<MutationRecord>)
        ensures
            r.is_none() == (old(self)@.history.len() == 0),
            r.is_none() ==> final(self)@ == old(self)@,
            r matches Some(x) ==> x@ == old(self)@.history.last() && final(self)@ == unremembered(
                old(self)@,
            ),
    {
        reveal(unremembered);
        let ghost h = self@.history;
        let ghost m = self.mutation_history@;
        let r = self.mutation_history.pop();
        assert(m.len() > 0 ==> self@.history =~= h.drop_last() && h.last() == m.last()@);
        assert(m.len() == 0 ==> self@.history =~= h);
        r
    }

    pub(crate) fn prim_undo_mutate(&mut self)
        ensures
            final(self)@ == p_undo(old(self)@),
    {
        reveal(p_undo);
        let n = self.dictionary.len();
        match self.forget_change() {
            None => self.emit_str("nothing to undo\n"),
            Some(r) => {
                let ghost x = r@;
                if r.word_index < n {
                    let mut s = text("undone: ");
                    s.append(r.word_name.as_str());
                    s.append(" [");
                    s.append(r.strategy.as_str());
                    s.append("]\n");
                    let ghost w = self@;
                    self.undo(r.word_index, r.old_body);
                    assert(self@ == undone(w, x));
                    self.emit_str(s.as_str());
                }
            },
        }
    }

    pub(crate) fn prim_mutations(&mut self)
        ensures
            final(self)@ == p_mutations(old(self)@),
    {
        reveal(p_mutations);
        if self.mutation_history.len() == 0 {
            self.emit_str("  (no mutations)\n");
            return ;
        }
        let mut out = String::new();
        let ghost h = self@.history;
        let mut i: usize = 0;
        assert(out@ =~= record_lines(h.take(0)));
        while i < self.mutation_history.len()
            invariant
                i <= self.mutation_history@.len(),
                self == old(self),
                h == self@.history,
                out@ == record_lines(h.take(i as int)),
            decreases self.mutation_history@.len() - i,
        {
            assert(h.take(i + 1).drop_last() =~= h.take(i as int));
            assert(h[i as int] == self.mutation_history@[i as int]@);
            let mut s = VM::format_record(&self.mutation_history[i]);
            s.append("\n");
            out.append(s.as_str());
            i = i + 1;
        }
        assert(h.take(i as int) =~= h);
        self.emit_str(out.as_str());
    }

    pub(crate) fn want_change(&mut self, index: Option<usize>, purpose: Purpose, seen: String)
        ensures
            final(self)@ == base::asked(old(self)@, change_wanted(index, purpose, seen@)),
    {
        self.ask(Request::Mutate { index, purpose, average: 0, before: 0, seen });
    }

    pub(crate) fn prim_mutate_rand(&mut self)
        ensures
            final(self)@ == p_mutate_rand(old(self)@),
    {
        reveal(p_mutate_rand);
        self.want_change(None, Purpose::Tell, String::new());
    }

    pub(crate) fn prim_mutate_random_atom(&mut self)
        ensures
            final(self)@ == p_mutate_random(old(self)@),
    {
        reveal(p_mutate_random);
        self.want_change(None, Purpose::Flag, String::new());
    }

    fn do_mutate_word(&mut self, name: &str)
        ensures
            final(self)@ == named_change(old(self)@, name@),
    {
        reveal(named_change);
        let upper = to_upper(name);
        assert(upper@ == text::upper(name@));
        match self.find_word(upper.as_str()) {
            Some(i) => self.want_change(Some(i), Purpose::Named, upper),
            None => {
                let mut s = upper;
                s.append("?\n");
                self.emit_str(s.as_str());
            },
        }
    }

    pub(crate) fn prim_mutate_word(&mut self)
        ensures
            final(self)@ == p_mutate_word(old(self)@),
    {
        reveal(p_mutate_word);
        let s = self.parse_until('"');
        if self.compiling {
            self.compile_text_op(s, P_MUTATE_WORD_RT);
        } else {
            self.do_mutate_word(s.as_str());
        }
    }

    pub(crate) fn rt_mutate_word(&mut self)
        ensures
            final(self)@ == p_mutate_word_rt(old(self)@),
    {
        reveal(p_mutate_word_rt);
        let i = self.pop();
        if let Some(s) = self.text_at(i as usize) {
            self.do_mutate_word(s.as_str());
        }
    }

    pub(crate) fn tell_change(&mut self, r: Reply, refusal: &str, failure: &str)
        ensures
            final(self)@ == change_told(old(self)@, r@, refusal@, failure@),
    {
        reveal(change_told);
        let refused = matches!(r, Reply::Refused);
        match self.apply_change(r) {
            Some(rec) => {
                let f = VM::format_record(&rec);
                let mut s = text("mutated: ");
                s.append(f.as_str());
                s.append("\n");
                self.emit_str(s.as_str());
                self.remember(rec);
            },
            None => {
                if refused {
                    self.emit_str(refusal);
                } else {
                    self.emit_str(failure);
                }
            },
        }
    }

    pub(crate) fn flag_change(&mut self, r: Reply)
        ensures
            final(self)@ == change_flagged(old(self)@, r@),
    {
        reveal(change_flagged);
        match self.apply_change(r) {
            Some(rec) => {
                self.remember(rec);
                self.push(-1);
            },
            None => self.push(0),
        }
    }
}

/// Undoing the last change gives the word its body back, and leaves all other words alone.
pub proof fn law_undo_restores(v: VmV, r: ReplyV)
    requires
        changed(v, r).is_some(),
    ensures
        ({
            let (rec, w) = changed(v, r)->0;
            p_undo(remembered(w, rec)).dict == v.dict
                && p_undo(remembered(w, rec)).history == v.history
        }),
{
    reveal(changed);
    reveal(p_undo);
    reveal(undone);
    reveal(with_body);
    reveal(remembered);
    reveal(unremembered);
    reveal(base::emit);
    let (rec, w) = changed(v, r)->0;
    assert(v.history.push(rec).drop_last() =~= v.history);
    assert(w.dict.update(rec.index as int, WordV { body: rec.old_body, ..w.dict[rec.index as int] })
        =~= v.dict);
}

} // verus!
