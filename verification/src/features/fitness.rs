//! Fitness: a score for finished work that drives evolution.

use crate::order;
use crate::order::sort_desc;
use crate::text;
use crate::text::{push_hex, push_i64, push_u64, push_usize, text};
use crate::types::clone_opt;
use crate::wire::{same_id, NodeId};
use vstd::prelude::*;

verus! {

/// The score of a unit and what it was made of.
#[derive(Debug)]
pub struct FitnessTracker {
    pub score: i64,
    pub tasks_completed: u32,
    pub tasks_failed: u32,
    pub total_time_ms: u64,
    pub benchmark_code: Option<String>,
    pub auto_evolve: bool,
    pub evolution_count: u32,
    pub tasks_since_evolve: u32,
    /// Evolution is due after this many tasks.
    pub evolve_interval: u32,
}

/// The mathematical form of a fitness tracker.
#[verifier::ext_equal]
pub struct FitV {
    pub score: i64,
    pub tasks_completed: u32,
    pub tasks_failed: u32,
    pub total_time_ms: u64,
    pub benchmark_code: Option<Seq<char>>,
    pub auto_evolve: bool,
    pub evolution_count: u32,
    pub tasks_since_evolve: u32,
    pub evolve_interval: u32,
}

impl View for FitnessTracker {
    type V = FitV;

    open spec fn view(&self) -> FitV {
        FitV {
            score: self.score,
            tasks_completed: self.tasks_completed,
            tasks_failed: self.tasks_failed,
            total_time_ms: self.total_time_ms,
            benchmark_code: text::opt_text(self.benchmark_code),
            auto_evolve: self.auto_evolve,
            evolution_count: self.evolution_count,
            tasks_since_evolve: self.tasks_since_evolve,
            evolve_interval: self.evolve_interval,
        }
    }
}

impl Clone for FitnessTracker {
    fn clone(&self) -> (r: Self)
        ensures
            r@ == self@,
    {
        FitnessTracker {
            score: self.score,
            tasks_completed: self.tasks_completed,
            tasks_failed: self.tasks_failed,
            total_time_ms: self.total_time_ms,
            benchmark_code: clone_opt(&self.benchmark_code),
            auto_evolve: self.auto_evolve,
            evolution_count: self.evolution_count,
            tasks_since_evolve: self.tasks_since_evolve,
            evolve_interval: self.evolve_interval,
        }
    }
}

/// A tracker before any task.
pub open spec fn fresh() -> FitV {
    FitV {
        score: 0,
        tasks_completed: 0,
        tasks_failed: 0,
        total_time_ms: 0,
        benchmark_code: None,
        auto_evolve: false,
        evolution_count: 0,
        tasks_since_evolve: 0,
        evolve_interval: 5,
    }
}

/// The bonus for speed.
pub open spec fn speed_bonus(elapsed_ms: u64) -> i64 {
    if elapsed_ms < 100 {
        5
    } else if elapsed_ms < 1000 {
        3
    } else if elapsed_ms < 5000 {
        2
    } else {
        1
    }
}

/// The tracker after a task that succeeded.
pub open spec fn after_success(f: FitV, elapsed_ms: u64) -> FitV {
    FitV {
        score: f.score.wrapping_add((10 + speed_bonus(elapsed_ms)) as i64),
        tasks_completed: f.tasks_completed.wrapping_add(1),
        total_time_ms: f.total_time_ms.wrapping_add(elapsed_ms),
        tasks_since_evolve: f.tasks_since_evolve.wrapping_add(1),
        ..f
    }
}

/// The tracker after a task that failed.
pub open spec fn after_failure(f: FitV) -> FitV {
    FitV {
        score: f.score.wrapping_sub(5),
        tasks_failed: f.tasks_failed.wrapping_add(1),
        tasks_since_evolve: f.tasks_since_evolve.wrapping_add(1),
        ..f
    }
}

/// The tracker after an evolution.
pub open spec fn after_evolution(f: FitV) -> FitV {
    FitV { tasks_since_evolve: 0, evolution_count: f.evolution_count.wrapping_add(1), ..f }
}

/// True if an evolution is due.
pub open spec fn evolution_due(f: FitV) -> bool {
    f.auto_evolve && f.tasks_since_evolve >= f.evolve_interval
}

/// The summary of a tracker.
pub open spec fn fitness_text(f: FitV) -> Seq<char> {
    "fitness: "@ + text::dec_int(f.score as int) + " (completed="@ + text::dec(f.tasks_completed as nat)
        + ", failed="@ + text::dec(f.tasks_failed as nat) + ", evolutions="@ + text::dec(
        f.evolution_count as nat,
    ) + ")"@
}

/// The line of a tracker in a table.
pub open spec fn fitness_line(f: FitV, id: Seq<u8>) -> Seq<char> {
    "  "@ + text::hex(id) + " score="@ + text::dec_int(f.score as int) + " tasks="@ + text::dec(
        f.tasks_completed as nat,
    ) + "/"@ + text::dec(f.tasks_completed.wrapping_add(f.tasks_failed) as nat)
}

impl Default for FitnessTracker {
    fn default() -> (r: Self)
        ensures
            r@ == fresh(),
    {
        Self::new()
    }
}

impl FitnessTracker {
    /// A tracker before any task.
    pub fn new() -> (r: Self)
        ensures
            r@ == fresh(),
    {
        FitnessTracker {
            score: 0,
            tasks_completed: 0,
            tasks_failed: 0,
            total_time_ms: 0,
            benchmark_code: None,
            auto_evolve: false,
            evolution_count: 0,
            tasks_since_evolve: 0,
            evolve_interval: 5,
        }
    }

    /// Counts a task that succeeded: ten points and up to five for speed.
    pub fn record_success(&mut self, elapsed_ms: u64)
        ensures
            final(self)@ == after_success(old(self)@, elapsed_ms),
    {
        let bonus: i64 = if elapsed_ms < 100 {
            5
        } else if elapsed_ms < 1000 {
            3
        } else if elapsed_ms < 5000 {
            2
        } else {
            1
        };
        self.tasks_completed = self.tasks_completed.wrapping_add(1);
        self.score = self.score.wrapping_add(10 + bonus);
        self.total_time_ms = self.total_time_ms.wrapping_add(elapsed_ms);
        self.tasks_since_evolve = self.tasks_since_evolve.wrapping_add(1);
    }

    /// Counts a task that failed: five points less.
    pub fn record_failure(&mut self)
        ensures
            final(self)@ == after_failure(old(self)@),
    {
        self.tasks_failed = self.tasks_failed.wrapping_add(1);
        self.score = self.score.wrapping_sub(5);
        self.tasks_since_evolve = self.tasks_since_evolve.wrapping_add(1);
    }

    /// Adds a peer's rating to the score.
    pub fn record_rating(&mut self, rating: i64)
        ensures
            final(self)@ == (FitV {
                score: old(self)@.score.wrapping_add(rating),
                ..old(self)@
            }),
    {
        self.score = self.score.wrapping_add(rating);
    }

    /// Whether an evolution is due.
    pub fn should_auto_evolve(&self) -> (b: bool)
        ensures
            b == evolution_due(self@),
    {
        self.auto_evolve && self.tasks_since_evolve >= self.evolve_interval
    }

    /// Counts an evolution.
    pub fn mark_evolved(&mut self)
        ensures
            final(self)@ == after_evolution(old(self)@),
    {
        self.tasks_since_evolve = 0;
        self.evolution_count = self.evolution_count.wrapping_add(1);
    }

    /// The summary.
    pub fn format(&self) -> (out: String)
        ensures
            out@ == fitness_text(self@),
    {
        let mut out = text("fitness: ");
        push_i64(&mut out, self.score);
        out.append(" (completed=");
        push_u64(&mut out, self.tasks_completed as u64);
        out.append(", failed=");
        push_u64(&mut out, self.tasks_failed as u64);
        out.append(", evolutions=");
        push_u64(&mut out, self.evolution_count as u64);
        out.append(")");
        out
    }

    /// The line in a table.
    pub fn format_line(&self, id: &NodeId) -> (out: String)
        ensures
            out@ == fitness_line(self@, id@),
    {
        let mut out = text("  ");
        push_hex(&mut out, id.as_slice());
        out.append(" score=");
        push_i64(&mut out, self.score);
        out.append(" tasks=");
        push_u64(&mut out, self.tasks_completed as u64);
        out.append("/");
        push_u64(&mut out, self.tasks_completed.wrapping_add(self.tasks_failed) as u64);
        out
    }
}

/// After an evolution none is due, if the interval is not zero.
pub proof fn law_evolution_resets(f: FitV)
    requires
        f.evolve_interval > 0,
    ensures
        !evolution_due(after_evolution(f)),
{
}

/// The score of a peer.
#[derive(Clone, Copy, Debug)]
pub struct PeerFitness {
    pub id: NodeId,
    pub score: i64,
}

/// The identities and scores of peers.
pub open spec fn scores(s: Seq<PeerFitness>) -> Seq<(Seq<u8>, int)> {
    Seq::new(s.len(), |i: int| (s[i].id@, s[i].score as int))
}

/// The scores alone.
pub open spec fn score_keys(s: Seq<(Seq<u8>, int)>) -> Seq<int> {
    Seq::new(s.len(), |i: int| s[i].1)
}

/// The rows of a leaderboard, numbered from 1, for the entries at these positions.
pub open spec fn board_rows(me: Seq<u8>, s: Seq<(Seq<u8>, int)>, ord: Seq<int>) -> Seq<char>
    decreases ord.len(),
{
    if ord.len() == 0 {
        Seq::empty()
    } else {
        let e = s[ord.last()];
        board_rows(me, s, ord.drop_last()) + ("  "@ + text::dec(ord.len()) + ". "@ + text::hex(e.0) + " score="@
            + text::dec_int(e.1) + (if e.0 == me {
            " (you)"@
        } else {
            ""@
        }) + "\n"@)
    }
}

/// The leaderboard of the peers and the unit itself, the highest score first.
pub open spec fn board_text(me: Seq<u8>, my_score: int, peers: Seq<(Seq<u8>, int)>) -> Seq<char> {
    let all = peers.push((me, my_score));
    "--- leaderboard ---\n"@ + board_rows(
        me,
        all,
        order::order_desc(score_keys(all), all.len() as int),
    ) + "---\n"@
}

/// The leaderboard of the peers and the unit itself, the highest score first; equal scores in the
/// order given, the unit itself last.
pub fn format_leaderboard(self_id: &NodeId, self_score: i64, peers: &[PeerFitness]) -> (out: String)
    ensures
        out@ == board_text(self_id@, self_score as int, scores(peers@)),
{
    let mut all: Vec<PeerFitness> = Vec::new();
    let mut keys: Vec<i128> = Vec::new();
    let mut i: usize = 0;
    while i < peers.len()
        invariant
            i <= peers@.len(),
            all@ == peers@.take(i as int),
            order::ints(keys@) == score_keys(scores(all@)),
        decreases peers@.len() - i,
    {
        let ghost before = order::ints(keys@);
        all.push(peers[i]);
        keys.push(peers[i].score as i128);
        i = i + 1;
        assert(all@ =~= peers@.take(i as int));
        assert(order::ints(keys@) =~= before.push(peers@[i - 1].score as int));
        assert(order::ints(keys@) =~= score_keys(scores(all@)));
    }
    assert(all@ =~= peers@);
    let ghost before = order::ints(keys@);
    all.push(PeerFitness { id: *self_id, score: self_score });
    keys.push(self_score as i128);
    let ghost want = scores(peers@).push((self_id@, self_score as int));
    proof {
        assert(scores(all@) =~= want);
        assert(order::ints(keys@) =~= before.push(self_score as int));
        assert(order::ints(keys@) =~= score_keys(want));
        assert(order::ints(keys@).len() == want.len());
    }
    let ord = sort_desc(&keys);
    let ghost pos = order::positions(ord@);
    let mut rows = String::new();
    let mut k: usize = 0;
    assert(rows@ =~= board_rows(self_id@, want, pos.take(0)));
    while k < ord.len()
        invariant
            k <= ord@.len(),
            pos == order::positions(ord@),
            want == scores(all@),
            keys@.len() == all@.len(),
            forall|j: int| 0 <= j < ord@.len() ==> (#[trigger] ord@[j]) < keys@.len(),
            rows@ == board_rows(self_id@, want, pos.take(k as int)),
        decreases ord@.len() - k,
    {
        assert(pos.take(k + 1).drop_last() =~= pos.take(k as int));
        let p = all[ord[k]];
        let mut row = text("  ");
        push_usize(&mut row, k + 1);
        row.append(". ");
        push_hex(&mut row, p.id.as_slice());
        row.append(" score=");
        push_i64(&mut row, p.score);
        if same_id(&p.id, self_id) {
            row.append(" (you)");
        } else {
            row.append("");
        }
        row.append("\n");
        rows.append(row.as_str());
        k = k + 1;
    }
    assert(pos.take(k as int) =~= pos);
    let mut out = text("--- leaderboard ---\n");
    out.append(rows.as_str());
    out.append("---\n");
    out
}

// ---------------------------------------------------------------------------
// What the score means
// ---------------------------------------------------------------------------

/// Away from the ends of its range, failure costs five points and success earns eleven to fifteen:
/// fifteen in less than a tenth of a second, thirteen in less than one, twelve in less than five.
pub proof fn law_success_pays(f: FitV, ms: u64)
    requires
        i64::MIN + 5 <= f.score <= i64::MAX - 15,
    ensures
        after_failure(f).score == f.score - 5,
        after_failure(f).score < f.score < after_success(f, ms).score,
        f.score + 11 <= after_success(f, ms).score <= f.score + 15,
        after_success(f, ms).score == f.score + 15 <==> ms < 100,
        after_success(f, ms).score == f.score + 13 <==> 100 <= ms < 1000,
        after_success(f, ms).score == f.score + 12 <==> 1000 <= ms < 5000,
        after_success(f, ms).score == f.score + 11 <==> ms >= 5000,
{
}

/// Who is faster is not worse off.
pub proof fn law_faster_is_fitter(f: FitV, ms: u64, slower: u64)
    requires
        f.score <= i64::MAX - 15,
        ms <= slower,
    ensures
        after_success(f, ms).score >= after_success(f, slower).score,
{
}

/// What became of a task: the milliseconds that it took, or nothing if it failed.
pub open spec fn after_task(f: FitV, outcome: Option<u64>) -> FitV {
    match outcome {
        Some(ms) => after_success(f, ms),
        None => after_failure(f),
    }
}

/// The tracker after tasks, one after the other.
pub open spec fn after_tasks(f: FitV, outcomes: Seq<Option<u64>>) -> FitV
    decreases outcomes.len(),
{
    if outcomes.len() == 0 {
        f
    } else {
        after_task(after_tasks(f, outcomes.drop_last()), outcomes.last())
    }
}

/// How many of these tasks succeeded.
pub open spec fn successes(outcomes: Seq<Option<u64>>) -> nat {
    outcomes.filter(|o: Option<u64>| o.is_some()).len()
}

/// Every task is counted once: the successful ones as completed, the others as failed, and all of
/// them towards the next evolution. Nothing else of the tracker but score and time changes.
pub proof fn law_every_task_counts(f: FitV, outcomes: Seq<Option<u64>>)
    requires
        f.tasks_completed + outcomes.len() <= u32::MAX,
        f.tasks_failed + outcomes.len() <= u32::MAX,
        f.tasks_since_evolve + outcomes.len() <= u32::MAX,
    ensures
        ({
            let w = after_tasks(f, outcomes);
            &&& successes(outcomes) <= outcomes.len()
            &&& w.tasks_completed == f.tasks_completed + successes(outcomes)
            &&& w.tasks_failed == f.tasks_failed + (outcomes.len() - successes(outcomes))
            &&& w.tasks_since_evolve == f.tasks_since_evolve + outcomes.len()
            &&& w.evolution_count == f.evolution_count && w.evolve_interval == f.evolve_interval
            &&& w.auto_evolve == f.auto_evolve && w.benchmark_code == f.benchmark_code
        }),
    decreases outcomes.len(),
{
    reveal(Seq::filter);
    if outcomes.len() > 0 {
        law_every_task_counts(f, outcomes.drop_last());
    }
}

/// The score after tasks is that of before, with what each of them brought.
pub proof fn law_score_adds_up(f: FitV, outcomes: Seq<Option<u64>>)
    requires
        outcomes.len() <= 0xFFFF_FFFF,
        -0x7000_0000_0000_0000 <= f.score <= 0x7000_0000_0000_0000,
    ensures
        ({
            let n = outcomes.len() as int;
            let k = successes(outcomes) as int;
            let w = after_tasks(f, outcomes).score;
            &&& 0 <= k <= n
            &&& f.score + 11 * k - 5 * (n - k) <= w <= f.score + 15 * k - 5 * (n - k)
        }),
    decreases outcomes.len(),
{
    reveal(Seq::filter);
    if outcomes.len() > 0 {
        law_score_adds_up(f, outcomes.drop_last());
    }
}

/// With evolution on, a tracker that has just evolved is due again exactly when as many tasks have
/// ended as its interval says, whatever became of them; with evolution off it never is. A new
/// tracker has the interval 5 and evolution off.
pub proof fn law_evolution_comes_round(f: FitV, outcomes: Seq<Option<u64>>)
    requires
        f.tasks_completed + outcomes.len() <= u32::MAX,
        f.tasks_failed + outcomes.len() <= u32::MAX,
        outcomes.len() <= u32::MAX,
    ensures
        evolution_due(after_tasks(after_evolution(f), outcomes)) <==> f.auto_evolve
            && outcomes.len() >= f.evolve_interval,
        after_evolution(f).score == f.score,
        f.evolution_count < u32::MAX ==> after_evolution(f).evolution_count == f.evolution_count
            + 1,
        fresh().evolve_interval == 5 && !fresh().auto_evolve && fresh().score == 0,
        fresh().tasks_completed == 0 && fresh().tasks_failed == 0,
{
    law_every_task_counts(after_evolution(f), outcomes);
}

/// The positions in the order of the leaderboard: every unit has one place, and no unit stands
/// before one with a higher score.
pub proof fn law_leaderboard_by_score(me: Seq<u8>, my_score: int, peers: Seq<(Seq<u8>, int)>)
    ensures
        ({
            let all = peers.push((me, my_score));
            exists|ord: Seq<int>|
                board_text(me, my_score, peers) == "--- leaderboard ---\n"@ + #[trigger] board_rows(
                    me,
                    all,
                    ord,
                ) + "---\n"@ && ord.len() == all.len() && ord.no_duplicates() && (forall|i: int|
                    0 <= i < ord.len() ==> 0 <= #[trigger] ord[i] < all.len()) && (forall|
                    i: int,
                    j: int,
                |
                    0 <= i < j < ord.len() ==> all[#[trigger] ord[i]].1 >= all[#[trigger] ord[j]].1)
        }),
{
    let all = peers.push((me, my_score));
    let keys = score_keys(all);
    let ord = order::order_desc(keys, all.len() as int);
    order::law_highest_first(keys);
    assert forall|i: int| 0 <= i < ord.len() implies 0 <= #[trigger] ord[i] < all.len() by {
        assert(ord.contains(ord[i]));
    }
    assert forall|i: int, j: int| 0 <= i < j < ord.len() implies all[#[trigger] ord[i]].1
        >= all[#[trigger] ord[j]].1 by {
        assert(keys[ord[i]] >= keys[ord[j]]);
    }
    assert(board_text(me, my_score, peers) == "--- leaderboard ---\n"@ + board_rows(me, all, ord)
        + "---\n"@);
}

} // verus!
