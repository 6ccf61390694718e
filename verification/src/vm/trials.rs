//! Benchmarks, evolution and judged changes.

use crate::features::fitness;
use crate::goals::{ResultV, TaskResult};
use crate::text;
use crate::text::{push_i64, push_u64, same_text, text};
use crate::types;
use crate::types::{clone_body, clone_opt, Cell, Instruction, Op, WordV};
use crate::vm::base;
use crate::vm::evolve;
use crate::vm::net;
use crate::vm::net::average_of;
use crate::vm::sandbox;
use crate::vm::state;
use crate::vm::state::{
    After, AfterV, Change, ChangeV, Frame, FrameV, MutationClass, MutationRecord, MutationStats,
    OutcomeV, Purpose, RecordV, Reply, ReplyV, Request, RequestV, Scored, ScoredV,
    SmartMutationResult, Time, VmV, VM,
};
use vstd::prelude::*;

verus! {

// ---------------------------------------------------------------------------
// Judged changes
// ---------------------------------------------------------------------------

/// The counts with one more change of a class.
pub open spec fn tallied(s: MutationStats, c: MutationClass) -> MutationStats {
    match c {
        MutationClass::Neutral => MutationStats { neutral: s.neutral.wrapping_add(1), ..s },
        MutationClass::Beneficial => MutationStats {
            beneficial: s.beneficial.wrapping_add(1),
            ..s
        },
        MutationClass::Harmful => MutationStats { harmful: s.harmful.wrapping_add(1), ..s },
    }
}

/// The name of a class.
pub open spec fn class_label(c: MutationClass) -> Seq<char> {
    match c {
        MutationClass::Neutral => "neutral"@,
        MutationClass::Beneficial => "beneficial"@,
        MutationClass::Harmful => "harmful"@,
    }
}

/// The machine with the verdict on a change.
#[verifier::opaque]
pub open spec fn noted(v: VmV, r: RecordV, c: MutationClass) -> VmV {
    VmV {
        stats: tallied(v.stats, c),
        last_mutation: Some(
            OutcomeV { name: r.name, strategy: r.strategy, class: c, kept: !(c is Harmful) },
        ),
        ..v
    }
}

/// The machine after the verdict on a change: a harmful one is undone, any other is kept.
#[verifier::opaque]
pub open spec fn judged(v: VmV, r: RecordV, c: MutationClass) -> VmV {
    if c is Harmful {
        base::pushed(noted(evolve::undone(v, r), r, c), 0)
    } else {
        base::pushed(noted(evolve::remembered(v, r), r, c), -1i64)
    }
}

/// MUTATION-REPORT ( -- )
#[verifier::opaque]
pub open spec fn p_mutation_report(v: VmV) -> VmV {
    match v.last_mutation {
        Some(r) => base::emit(
            v,
            "last: "@ + r.name + " ["@ + r.strategy + "] "@ + class_label(r.class) + " "@ + (
            if r.kept {
                "(kept)"@
            } else {
                "(reverted)"@
            }) + "\n"@,
        ),
        None => base::emit(v, "no mutations yet\n"@),
    }
}

/// MUTATION-STATS ( -- )
#[verifier::opaque]
pub open spec fn p_mutation_stats(v: VmV) -> VmV {
    base::emit(
        v,
        "neutral="@ + text::dec(v.stats.neutral as nat) + " beneficial="@ + text::dec(
            v.stats.beneficial as nat,
        ) + " harmful="@ + text::dec(v.stats.harmful as nat) + "\n"@,
    )
}

impl MutationClass {
    /// The name of a class.
    pub fn label(&self) -> (s: &'static str)
        ensures
            s@ == class_label(*self),
    {
        match self {
            MutationClass::Neutral => "neutral",
            MutationClass::Beneficial => "beneficial",
            MutationClass::Harmful => "harmful",
        }
    }
}

impl MutationStats {
    /// Counts a change.
    pub fn record(&mut self, c: &MutationClass)
        ensures
            *final(self) == tallied(*old(self), *c),
    {
        match c {
            MutationClass::Neutral => self.neutral = self.neutral.wrapping_add(1),
            MutationClass::Beneficial => self.beneficial = self.beneficial.wrapping_add(1),
            MutationClass::Harmful => self.harmful = self.harmful.wrapping_add(1),
        }
    }
}

impl VM {
    fn note_verdict(&mut self, word_name: String, strategy: String, class: MutationClass)
        ensures
            forall|r: RecordV|
                r.name == word_name@ && r.strategy == strategy@ ==> final(self)@ == #[trigger] noted(
                    old(self)@,
                    r,
                    class,
                ),
    {
        reveal(noted);
        self.mutation_stats.record(&class);
        let kept = !matches!(class, MutationClass::Harmful);
        self.last_mutation_result = Some(
            SmartMutationResult { word_name, strategy, class, kept },
        );
    }

    fn judge(&mut self, r: MutationRecord, class: MutationClass)
        ensures
            final(self)@ == judged(old(self)@, r@, class),
    {
        reveal(judged);
        let ghost x = r@;
        let ghost v = self@;
        let name = r.word_name.clone();
        let strategy = r.strategy.clone();
        if let MutationClass::Harmful = class {
            self.undo(r.word_index, r.old_body);
            let ghost w = self@;
            assert(w == evolve::undone(v, x));
            self.note_verdict(name, strategy, class);
            assert(self@ == noted(w, x, class));
            self.push(0);
        } else {
            self.remember(r);
            let ghost w = self@;
            self.note_verdict(name, strategy, class);
            assert(self@ == noted(w, x, class));
            self.push(-1);
        }
    }

    pub(crate) fn prim_mutation_report(&mut self)
        ensures
            final(self)@ == p_mutation_report(old(self)@),
    {
        reveal(p_mutation_report);
        let s = match &self.last_mutation_result {
            Some(r) => {
                let mut s = text("last: ");
                s.append(r.word_name.as_str());
                s.append(" [");
                s.append(r.strategy.as_str());
                s.append("] ");
                s.append(r.class.label());
                s.append(" ");
                if r.kept {
                    s.append("(kept)");
                } else {
                    s.append("(reverted)");
                }
                s.append("\n");
                s
            },
            None => text("no mutations yet\n"),
        };
        self.emit_str(s.as_str());
    }

    pub(crate) fn prim_mutation_stats(&mut self)
        ensures
            final(self)@ == p_mutation_stats(old(self)@),
    {
        reveal(p_mutation_stats);
        let mut s = text("neutral=");
        push_u64(&mut s, self.mutation_stats.neutral as u64);
        s.append(" beneficial=");
        push_u64(&mut s, self.mutation_stats.beneficial as u64);
        s.append(" harmful=");
        push_u64(&mut s, self.mutation_stats.harmful as u64);
        s.append("\n");
        self.emit_str(s.as_str());
    }
}

// ---------------------------------------------------------------------------
// Benchmarks
// ---------------------------------------------------------------------------

/// The score of a benchmark: ten for each cell that it leaves, less one for each tenth of a second,
/// fifty at most; -100 if it did not end in time.
pub open spec fn score_of(r: ResultV, elapsed: u64) -> i64 {
    if r.success {
        (r.stack.len() as usize as i64).wrapping_mul(10).wrapping_sub(
            if elapsed / 100 < 50 {
                (elapsed / 100) as i64
            } else {
                50
            },
        )
    } else {
        -100i64
    }
}

/// The end of an evolution cycle.
#[verifier::opaque]
pub open spec fn evolved(v: VmV, average: i64) -> VmV {
    let f = fitness::after_evolution(v.fitness);
    base::emit(
        evolve::with_fitness(v, f),
        "evolve: own="@ + text::dec_int(f.score as int) + " avg="@ + text::dec_int(average as int)
            + " evolutions="@ + text::dec(f.evolution_count as nat) + "\n"@,
    )
}

/// An evolution cycle after the second benchmark: a change that scores less is undone.
#[verifier::opaque]
pub open spec fn selected(v: VmV, average: i64, before: i64, after: i64, r: RecordV) -> VmV {
    if after >= before {
        evolved(
            evolve::remembered(
                base::emit(
                    v,
                    "evolve: kept mutation ("@ + text::dec_int(before as int) + " -> "@
                        + text::dec_int(after as int) + "): "@ + evolve::record_text(r) + "\n"@,
                ),
                r,
            ),
            average,
        )
    } else {
        evolved(
            base::emit(
                evolve::undone(v, r),
                "evolve: reverted mutation ("@ + text::dec_int(before as int) + " -> "@
                    + text::dec_int(after as int) + ")\n"@,
            ),
            average,
        )
    }
}

/// What follows a score.
#[verifier::opaque]
pub open spec fn scored(v: VmV, score: i64, next: ScoredV) -> VmV {
    match next {
        ScoredV::Push => base::pushed(v, score),
        ScoredV::EvolveBefore { average } => base::asked(
            v,
            RequestV::Mutate {
                index: None,
                purpose: Purpose::Evolve,
                average,
                before: score,
                seen: Seq::empty(),
            },
        ),
        ScoredV::EvolveAfter { average, before, record } => selected(
            v,
            average,
            before,
            score,
            record,
        ),
        ScoredV::Judge { record } => judged(
            v,
            record,
            if score >= 0 {
                MutationClass::Beneficial
            } else {
                MutationClass::Harmful
            },
        ),
    }
}

/// The machine with the benchmark begun. Without a benchmark the score is 0.
#[verifier::opaque]
pub open spec fn benched(v: VmV, next: ScoredV, t: Time) -> VmV {
    match v.fitness.benchmark_code {
        Some(code) => sandbox::confined(v, code, AfterV::Score { start: t.now, next }, t),
        None => scored(v, 0, next),
    }
}

/// RUN-BENCHMARK ( -- score )
#[verifier::opaque]
pub open spec fn p_run_benchmark(v: VmV, t: Time) -> VmV {
    benched(v, ScoredV::Push, t)
}

/// EVOLVE ( -- )
#[verifier::opaque]
pub open spec fn p_evolve(v: VmV, t: Time) -> VmV {
    let average = match v.mesh {
        Some(m) => net::mesh_average(m, v.fitness.score),
        None => v.fitness.score,
    };
    benched(v, ScoredV::EvolveBefore { average }, t)
}

/// Evolution between two lines of input, if it is due.
#[verifier::opaque]
pub open spec fn evolve_checked(v: VmV, t: Time) -> VmV {
    if fitness::evolution_due(v.fitness) {
        p_evolve(v, t)
    } else {
        v
    }
}

/// EVOLVE with the change.
#[verifier::opaque]
pub open spec fn change_tried(v: VmV, r: ReplyV, average: i64, before: i64, t: Time) -> VmV {
    match evolve::changed(v, r) {
        Some((record, w)) => benched(w, ScoredV::EvolveAfter { average, before, record }, t),
        None => if r is Refused {
            base::emit(v, "evolve: no mutable words\n"@)
        } else {
            evolved(base::emit(v, "evolve: mutation failed\n"@), average)
        },
    }
}

/// The score of a benchmark.
pub fn score(r: &TaskResult, elapsed: u64) -> (x: i64)
    ensures
        x == score_of(r@, elapsed),
{
    if r.success {
        let tenths: u64 = elapsed / 100;
        let penalty: i64 = if tenths < 50 {
            tenths as i64
        } else {
            50
        };
        (r.stack_snapshot.len() as i64).wrapping_mul(10).wrapping_sub(penalty)
    } else {
        -100
    }
}

impl VM {
    fn end_evolve(&mut self, average: i64)
        ensures
            final(self)@ == evolved(old(self)@, average),
    {
        reveal(evolved);
        let mut f = self.take_fitness();
        f.mark_evolved();
        let own = f.score;
        let count = f.evolution_count;
        self.put_fitness(f);
        let mut s = text("evolve: own=");
        push_i64(&mut s, own);
        s.append(" avg=");
        push_i64(&mut s, average);
        s.append(" evolutions=");
        push_u64(&mut s, count as u64);
        s.append("\n");
        self.emit_str(s.as_str());
    }

    fn select(&mut self, average: i64, before: i64, after: i64, r: MutationRecord)
        ensures
            final(self)@ == selected(old(self)@, average, before, after, r@),
    {
        reveal(selected);
        let ghost x = r@;
        let ghost v = self@;
        if after >= before {
            let mut s = text("evolve: kept mutation (");
            push_i64(&mut s, before);
            s.append(" -> ");
            push_i64(&mut s, after);
            s.append("): ");
            let f = VM::format_record(&r);
            s.append(f.as_str());
            s.append("\n");
            self.emit_str(s.as_str());
            self.remember(r);
        } else {
            self.undo(r.word_index, r.old_body);
            assert(self@ == evolve::undone(v, x));
            let mut s = text("evolve: reverted mutation (");
            push_i64(&mut s, before);
            s.append(" -> ");
            push_i64(&mut s, after);
            s.append(")\n");
            self.emit_str(s.as_str());
        }
        self.end_evolve(average);
    }

    pub(crate) fn follow_score(&mut self, score: i64, next: Scored)
        ensures
            final(self)@ == scored(old(self)@, score, next@),
    {
        reveal(scored);
        match next {
            Scored::Push => self.push(score),
            Scored::EvolveBefore { average } => {
                let seen = String::new();
                assert(seen@ =~= Seq::<char>::empty());
                self.ask(
                    Request::Mutate {
                        index: None,
                        purpose: Purpose::Evolve,
                        average,
                        before: score,
                        seen,
                    },
                );
            },
            Scored::EvolveAfter { average, before, record } => {
                self.select(average, before, score, record);
            },
            Scored::Judge { record } => {
                if score >= 0 {
                    self.judge(record, MutationClass::Beneficial);
                } else {
                    self.judge(record, MutationClass::Harmful);
                }
            },
        }
    }

    fn begin_benchmark(&mut self, next: Scored, t: Time)
        ensures
            final(self)@ == benched(old(self)@, next@, t),
    {
        reveal(benched);
        match clone_opt(&self.fitness.benchmark_code) {
            Some(code) => {
                self.begin_sandbox(code.as_str(), After::Score { start: t.now, next }, t);
            },
            None => self.follow_score(0, next),
        }
    }

    pub(crate) fn prim_run_benchmark(&mut self, t: Time)
        ensures
            final(self)@ == p_run_benchmark(old(self)@, t),
    {
        reveal(p_run_benchmark);
        self.begin_benchmark(Scored::Push, t);
    }

    pub(crate) fn prim_evolve(&mut self, t: Time)
        ensures
            final(self)@ == p_evolve(old(self)@, t),
    {
        reveal(p_evolve);
        let average: i64 = match &self.mesh {
            Some(m) => average_of(m, self.fitness.score),
            None => self.fitness.score,
        };
        self.begin_benchmark(Scored::EvolveBefore { average }, t);
    }

    pub(crate) fn check_auto_evolve(&mut self, t: Time)
        ensures
            final(self)@ == evolve_checked(old(self)@, t),
    {
        reveal(evolve_checked);
        if self.fitness.should_auto_evolve() {
            self.prim_evolve(t);
        }
    }

    fn try_change(&mut self, r: Reply, average: i64, before: i64, t: Time)
        ensures
            final(self)@ == change_tried(old(self)@, r@, average, before, t),
    {
        reveal(change_tried);
        let refused = matches!(r, Reply::Refused);
        match self.apply_change(r) {
            Some(record) => {
                self.begin_benchmark(Scored::EvolveAfter { average, before, record }, t);
            },
            None => {
                if refused {
                    self.emit_str("evolve: no mutable words\n");
                } else {
                    self.emit_str("evolve: mutation failed\n");
                    self.end_evolve(average);
                }
            },
        }
    }
}

// ---------------------------------------------------------------------------
// The behaviour of a word
// ---------------------------------------------------------------------------

/// The stacks on which a word is observed.
pub open spec fn trial_stack(round: int) -> Seq<i64> {
    if round == 0 {
        Seq::empty()
    } else if round == 1 {
        seq![1i64]
    } else {
        seq![1i64, 2i64, 3i64]
    }
}

/// Cells between commas.
pub open spec fn listed(s: Seq<i64>) -> Seq<char>
    decreases s.len(),
{
    if s.len() == 0 {
        Seq::empty()
    } else if s.len() == 1 {
        text::dec_int(s[0] as int)
    } else {
        listed(s.drop_last()) + ", "@ + text::dec_int(s.last() as int)
    }
}

/// The stack as text.
pub open spec fn stack_text(s: Seq<i64>) -> Seq<char> {
    "["@ + listed(s) + "]"@
}

/// The machine with a word running on a trial stack.
#[verifier::opaque]
pub open spec fn trying(v: VmV, round: int, t: Time) -> VmV {
    VmV {
        stack: trial_stack(round),
        output: Some(Seq::empty()),
        timed_out: false,
        deadline: Some(t.now.saturating_add(evolve::PROBE_MILLIS)),
        ..v
    }
}

/// What a trial has shown.
pub open spec fn shown(v: VmV) -> Seq<char> {
    (match v.output {
        Some(s) => s,
        None => Seq::empty(),
    }) + stack_text(v.stack)
}

/// The machine after a trial.
#[verifier::opaque]
pub open spec fn tried(v: VmV, stack: Seq<i64>) -> VmV {
    VmV { stack, output: None, timed_out: false, deadline: None, ..v }
}

/// The machine with the next trial of a word begun.
#[verifier::opaque]
pub open spec fn trial_begun(
    v: VmV,
    index: usize,
    body: Seq<Op>,
    round: u8,
    seen: Seq<char>,
    change: Option<ChangeV>,
    t: Time,
) -> VmV {
    base::framed(
        base::framed(
            trying(v, round as int, t),
            FrameV::Probe {
                index,
                body,
                round: (round + 1) as u8,
                saved: v.stack,
                seen,
                change,
            },
        ),
        FrameV::Body { body, ip: 0 },
    )
}

/// The machine after the last trial: before a change, the change is wanted; after it, it is judged.
#[verifier::opaque]
pub open spec fn behaviour_seen(
    v: VmV,
    index: usize,
    seen: Seq<char>,
    change: Option<ChangeV>,
    t: Time,
) -> VmV {
    match change {
        None => base::asked(v, evolve::change_wanted(Some(index), Purpose::Judge, seen)),
        Some(c) => if c.before == seen {
            judged(v, c.record, MutationClass::Neutral)
        } else {
            benched(v, ScoredV::Judge { record: c.record }, t)
        },
    }
}

/// The machine between two trials of a word.
#[verifier::opaque]
pub open spec fn observed(
    v: VmV,
    index: usize,
    body: Seq<Op>,
    round: u8,
    saved: Seq<i64>,
    seen: Seq<char>,
    change: Option<ChangeV>,
    t: Time,
) -> VmV {
    if round == 0 {
        trial_begun(v, index, body, 0, seen, change, t)
    } else {
        let now_seen = seen + shown(v);
        let w = tried(v, saved);
        if round < 3 {
            trial_begun(w, index, body, round, now_seen, change, t)
        } else {
            behaviour_seen(w, index, now_seen, change, t)
        }
    }
}

/// The machine with the trials of a word begun.
#[verifier::opaque]
pub open spec fn observing(v: VmV, index: usize, change: Option<ChangeV>) -> VmV {
    base::framed(
        v,
        FrameV::Probe {
            index,
            body: v.dict[index as int].body,
            round: 0,
            saved: Seq::empty(),
            seen: Seq::empty(),
            change,
        },
    )
}

/// SMART-MUTATE ( -- flag )
#[verifier::opaque]
pub open spec fn p_smart_mutate(v: VmV) -> VmV {
    base::asked(v, evolve::change_wanted(None, Purpose::Pick, Seq::empty()))
}

/// SMART-MUTATE with the word that is to be changed.
#[verifier::opaque]
pub open spec fn word_picked(v: VmV, r: ReplyV) -> VmV {
    match r {
        ReplyV::Picked(i) => if i < v.dict.len() {
            observing(v, i, None)
        } else {
            base::pushed(base::emit(v, "no mutable words\n"@), 0)
        },
        _ => base::pushed(base::emit(v, "no mutable words\n"@), 0),
    }
}

/// SMART-MUTATE with the change.
#[verifier::opaque]
pub open spec fn change_observed(v: VmV, r: ReplyV, before: Seq<char>) -> VmV {
    match evolve::changed(v, r) {
        Some((record, w)) => observing(w, record.index, Some(ChangeV { record, before })),
        None => base::pushed(v, 0),
    }
}

/// The machine with an answer to a wish for a change.
#[verifier::opaque]
pub open spec fn mutate_replied(
    v: VmV,
    purpose: Purpose,
    average: i64,
    before: i64,
    seen: Seq<char>,
    r: ReplyV,
    t: Time,
) -> VmV {
    match purpose {
        Purpose::Tell => evolve::change_told(
            v,
            r,
            "no mutable words\n"@,
            "mutation failed (no applicable strategy)\n"@,
        ),
        Purpose::Flag => evolve::change_flagged(v, r),
        Purpose::Named => evolve::change_told(
            v,
            r,
            seen + ": not mutable (kernel word)\n"@,
            "mutation failed\n"@,
        ),
        Purpose::Pick => word_picked(v, r),
        Purpose::Judge => change_observed(v, r, seen),
        Purpose::Evolve => change_tried(v, r, average, before, t),
    }
}

fn push_stack(out: &mut String, s: &[Cell])
    ensures
        final(out)@ == old(out)@ + stack_text(s@),
{
    let mut l = String::new();
    let mut i: usize = 0;
    assert(l@ =~= listed(s@.take(0)));
    while i < s.len()
        invariant
            i <= s@.len(),
            l@ == listed(s@.take(i as int)),
        decreases s@.len() - i,
    {
        assert(s@.take(i + 1).drop_last() =~= s@.take(i as int));
        if i > 0 {
            l.append(", ");
        }
        let ghost before = l@;
        push_i64(&mut l, s[i]);
        i = i + 1;
        if i == 1 {
            assert(before =~= Seq::<char>::empty());
            assert(l@ =~= text::dec_int(s@[0] as int));
        }
    }
    assert(s@.take(i as int) =~= s@);
    out.append("[");
    out.append(l.as_str());
    out.append("]");
    assert(final(out)@ =~= old(out)@ + stack_text(s@));
}

impl VM {
    fn begin_trial(
        &mut self,
        index: usize,
        body: Vec<Instruction>,
        round: u8,
        seen: String,
        change: Option<Change>,
        t: Time,
    )
        requires
            round < 3,
        ensures
            final(self)@ == trial_begun(
                old(self)@,
                index,
                types::ops(body@),
                round,
                seen@,
                state::opt_change(change),
                t,
            ),
    {
        reveal(trial_begun);
        let copy = clone_body(&body);
        let saved = self.set_trial(round, t);
        self.enter(Frame::Probe { index, body, round: round + 1, saved, seen, change });
        self.enter(Frame::Body { body: copy, ip: 0 });
    }

    fn set_trial(&mut self, round: u8, t: Time) -> (saved: Vec<Cell>)
        ensures
            saved@ == old(self)@.stack,
            final(self)@ == trying(old(self)@, round as int, t),
    {
        reveal(trying);
        let mut saved: Vec<Cell> = if round == 0 {
            Vec::new()
        } else if round == 1 {
            vec![1]
        } else {
            vec![1, 2, 3]
        };
        assert(saved@ =~= trial_stack(round as int));
        std::mem::swap(&mut saved, &mut self.stack);
        let out = String::new();
        assert(out@ =~= Seq::<char>::empty());
        self.output_buffer = Some(out);
        self.timed_out = false;
        self.deadline = Some(t.now.saturating_add(evolve::PROBE_MILLIS));
        saved
    }

    fn end_trial(&mut self, seen: &mut String, saved: Vec<Cell>)
        ensures
            final(seen)@ == old(seen)@ + shown(old(self)@),
            final(self)@ == tried(old(self)@, saved@),
    {
        reveal(tried);
        if let Some(s) = &self.output_buffer {
            seen.append(s.as_str());
        }
        push_stack(seen, &self.stack);
        assert(seen@ =~= old(seen)@ + shown(self@));
        self.stack = saved;
        self.output_buffer = None;
        self.timed_out = false;
        self.deadline = None;
    }

    fn see_behaviour(&mut self, index: usize, seen: String, change: Option<Change>, t: Time)
        ensures
            final(self)@ == behaviour_seen(
                old(self)@,
                index,
                seen@,
                state::opt_change(change),
                t,
            ),
    {
        reveal(behaviour_seen);
        match change {
            None => self.want_change(Some(index), Purpose::Judge, seen),
            Some(c) => {
                if same_text(c.before.as_str(), seen.as_str()) {
                    self.judge(c.record, MutationClass::Neutral);
                } else {
                    self.begin_benchmark(Scored::Judge { record: c.record }, t);
                }
            },
        }
    }

    pub(crate) fn step_probe(
        &mut self,
        index: usize,
        body: Vec<Instruction>,
        round: u8,
        saved: Vec<Cell>,
        seen: String,
        change: Option<Change>,
        t: Time,
    )
        ensures
            final(self)@ == observed(
                old(self)@,
                index,
                types::ops(body@),
                round,
                saved@,
                seen@,
                state::opt_change(change),
                t,
            ),
    {
        reveal(observed);
        if round == 0 {
            self.begin_trial(index, body, 0, seen, change, t);
        } else {
            let mut seen = seen;
            self.end_trial(&mut seen, saved);
            if round < 3 {
                self.begin_trial(index, body, round, seen, change, t);
            } else {
                self.see_behaviour(index, seen, change, t);
            }
        }
    }

    fn observe(&mut self, index: usize, change: Option<Change>)
        requires
            index < old(self).dictionary@.len(),
        ensures
            final(self)@ == observing(old(self)@, index, state::opt_change(change)),
    {
        reveal(observing);
        assert(self@.dict[index as int] == self.dictionary@[index as int]@);
        let body = clone_body(&self.dictionary[index].body);
        let saved: Vec<Cell> = Vec::new();
        let seen = String::new();
        assert(saved@ =~= Seq::<i64>::empty());
        assert(seen@ =~= Seq::<char>::empty());
        self.enter(Frame::Probe { index, body, round: 0, saved, seen, change });
    }

    pub(crate) fn prim_smart_mutate(&mut self)
        ensures
            final(self)@ == p_smart_mutate(old(self)@),
    {
        reveal(p_smart_mutate);
        self.want_change(None, Purpose::Pick, String::new());
    }

    fn no_words(&mut self)
        ensures
            final(self)@ == base::pushed(base::emit(old(self)@, "no mutable words\n"@), 0),
    {
        self.emit_str("no mutable words\n");
        self.push(0);
    }

    fn pick_word(&mut self, r: &Reply)
        ensures
            final(self)@ == word_picked(old(self)@, r@),
    {
        reveal(word_picked);
        match r {
            Reply::Picked(i) => {
                if *i < self.dictionary.len() {
                    self.observe(*i, None);
                } else {
                    self.no_words();
                }
            },
            _ => self.no_words(),
        }
    }

    fn observe_change(&mut self, r: Reply, before: String)
        ensures
            final(self)@ == change_observed(old(self)@, r@, before@),
    {
        reveal(change_observed);
        let ghost v = self@;
        let ghost x = evolve::changed(v, r@);
        assert(x matches Some((rec, w)) ==> rec.index < w.dict.len()) by {
            reveal(evolve::changed);
            reveal(evolve::with_body);
        }
        match self.apply_change(r) {
            Some(record) => {
                let i = record.word_index;
                self.observe(i, Some(Change { record, before }));
            },
            None => self.push(0),
        }
    }

    pub(crate) fn resume_mutate(
        &mut self,
        purpose: Purpose,
        average: i64,
        before: i64,
        seen: String,
        r: Reply,
        t: Time,
    )
        ensures
            final(self)@ == mutate_replied(old(self)@, purpose, average, before, seen@, r@, t),
    {
        reveal(mutate_replied);
        match purpose {
            Purpose::Tell => self.tell_change(
                r,
                "no mutable words\n",
                "mutation failed (no applicable strategy)\n",
            ),
            Purpose::Flag => self.flag_change(r),
            Purpose::Named => {
                let mut s = seen;
                s.append(": not mutable (kernel word)\n");
                self.tell_change(r, s.as_str(), "mutation failed\n");
            },
            Purpose::Pick => self.pick_word(&r),
            Purpose::Judge => self.observe_change(r, seen),
            Purpose::Evolve => self.try_change(r, average, before, t),
        }
    }
}

/// A harmful change leaves no trace in the dictionary, and a change that is kept can be undone.
pub proof fn law_harmful_change_reverted(v: VmV, r: ReplyV, c: MutationClass)
    requires
        evolve::changed(v, r).is_some(),
    ensures
        ({
            let (rec, w) = evolve::changed(v, r)->0;
            let j = judged(w, rec, c);
            &&& c is Harmful ==> j.dict == v.dict && j.history == v.history
            &&& !(c is Harmful) ==> j.dict == w.dict && j.history == v.history.push(rec)
            &&& j.stack.last() == (if c is Harmful {
                0i64
            } else {
                -1i64
            })
        }),
{
    reveal(evolve::changed);
    reveal(judged);
    reveal(noted);
    reveal(evolve::undone);
    reveal(evolve::remembered);
    reveal(evolve::with_body);
    reveal(base::pushed);
    let (rec, w) = evolve::changed(v, r)->0;
    assert(w.dict.update(rec.index as int, WordV { body: rec.old_body, ..w.dict[rec.index as int] })
        =~= v.dict);
}

/// An evolution cycle never keeps a change that scores less than the word did before.
pub proof fn law_evolution_never_worse(
    v: VmV,
    r: ReplyV,
    average: i64,
    before: i64,
    after: i64,
)
    requires
        evolve::changed(v, r).is_some(),
    ensures
        ({
            let (rec, w) = evolve::changed(v, r)->0;
            let s = selected(w, average, before, after, rec);
            &&& after < before ==> s.dict == v.dict && s.history == v.history
            &&& after >= before ==> s.dict == w.dict && s.history == v.history.push(rec)
        }),
{
    reveal(evolve::changed);
    reveal(selected);
    reveal(evolved);
    reveal(evolve::with_fitness);
    reveal(evolve::undone);
    reveal(evolve::remembered);
    reveal(evolve::with_body);
    reveal(base::emit);
    let (rec, w) = evolve::changed(v, r)->0;
    assert(w.dict.update(rec.index as int, WordV { body: rec.old_body, ..w.dict[rec.index as int] })
        =~= v.dict);
}

} // verus!
