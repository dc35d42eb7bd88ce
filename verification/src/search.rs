//! Search orchestration.
//!
//! The numerical engine samples placements, refines them and scores them on
//! `f64` values outside this library.  Everything the search *decides* is
//! here, verified: the lifecycle of one search task, the orchestrator's
//! lifecycle, the per-iteration loop decisions, the sampler's rejection
//! budget, the accept/rollback rule of a descent move, and the reduction
//! that keeps the best reported result.
//!
//! Scores enter this module as order keys: the caller maps each `f64` score
//! to a `u64` key so that a strictly better score gets a strictly larger
//! key.  Every decision below depends on the order of scores alone, so the
//! keys carry everything the decisions need.

use vstd::prelude::*;

verus! {

// ---------------------------------------------------------------------------
// Task and orchestrator lifecycles
// ---------------------------------------------------------------------------

/// Phase of one independent search task.  A task walks the phases in order —
/// sample a feasible placement, refine it by gradient ascent, assign volumes,
/// report the scored result — and never returns to an earlier phase.
#[derive(Clone, Copy, Debug, PartialEq, Eq, Structural)]
pub enum TaskPhase {
    Idle,
    Sampling,
    Refining,
    VolumeAssigning,
    Reporting,
    Done,
}

/// Position of a phase in the task lifecycle.
pub open spec fn phase_rank(p: TaskPhase) -> int {
    match p {
        TaskPhase::Idle => 0,
        TaskPhase::Sampling => 1,
        TaskPhase::Refining => 2,
        TaskPhase::VolumeAssigning => 3,
        TaskPhase::Reporting => 4,
        TaskPhase::Done => 5,
    }
}

/// The phase that follows `p` in the task lifecycle; `Done` is terminal.
pub open spec fn spec_advance_task(p: TaskPhase) -> TaskPhase {
    match p {
        TaskPhase::Idle => TaskPhase::Sampling,
        TaskPhase::Sampling => TaskPhase::Refining,
        TaskPhase::Refining => TaskPhase::VolumeAssigning,
        TaskPhase::VolumeAssigning => TaskPhase::Reporting,
        TaskPhase::Reporting => TaskPhase::Done,
        TaskPhase::Done => TaskPhase::Done,
    }
}

/// Step a task to its next phase.
pub fn advance_task(p: TaskPhase) -> (r: TaskPhase)
    ensures
        r == spec_advance_task(p),
        p != TaskPhase::Done ==> phase_rank(r) == phase_rank(p) + 1,
{
    match p {
        TaskPhase::Idle => TaskPhase::Sampling,
        TaskPhase::Sampling => TaskPhase::Refining,
        TaskPhase::Refining => TaskPhase::VolumeAssigning,
        TaskPhase::VolumeAssigning => TaskPhase::Reporting,
        TaskPhase::Reporting => TaskPhase::Done,
        TaskPhase::Done => TaskPhase::Done,
    }
}

/// True of a trace in which every phase is followed by the next phase of
/// the lifecycle.
pub open spec fn phase_trace_ok(trace: Seq<TaskPhase>) -> bool {
    forall|i: int| 0 <= i < trace.len() - 1 ==> trace[i + 1] == spec_advance_task(trace[i])
}

proof fn lemma_phase_rank_le(trace: Seq<TaskPhase>, i: int, j: int)
    requires
        phase_trace_ok(trace),
        0 <= i <= j < trace.len(),
    ensures
        phase_rank(trace[i]) <= phase_rank(trace[j]),
        i < j && trace[i] != TaskPhase::Done ==> trace[i] != trace[j],
    decreases j - i,
{
    if i < j {
        lemma_phase_rank_le(trace, i, j - 1);
        assert(trace[(j - 1) + 1] == spec_advance_task(trace[j - 1]));
    }
}

/// A task's transitions are purely sequential: along any trace of phases
/// produced by `spec_advance_task`, the rank never decreases, and a task
/// never revisits a phase it has left (`Done` repeats, being terminal).
pub proof fn lemma_task_phase_no_revisit(trace: Seq<TaskPhase>)
    requires
        phase_trace_ok(trace),
    ensures
        forall|i: int, j: int|
            0 <= i <= j < trace.len() ==> phase_rank(trace[i]) <= phase_rank(trace[j]),
        forall|i: int, j: int|
            0 <= i < j < trace.len() && trace[i] != TaskPhase::Done ==> trace[i] != trace[j],
{
    assert forall|i: int, j: int| 0 <= i <= j < trace.len()
        implies phase_rank(trace[i]) <= phase_rank(trace[j]) by {
        lemma_phase_rank_le(trace, i, j);
    }
    assert forall|i: int, j: int| 0 <= i < j < trace.len() && trace[i] != TaskPhase::Done
        implies trace[i] != trace[j] by {
        lemma_phase_rank_le(trace, i, j);
    }
}

/// Phase of the orchestrator: spawn the tasks, collect every reported
/// result, select the best, done.
#[derive(Clone, Copy, Debug, PartialEq, Eq, Structural)]
pub enum SearchPhase {
    Dispatching,
    Collecting,
    Selecting,
    Done,
}

/// Step the orchestrator to its next phase; `Done` is terminal.
pub fn advance_search(p: SearchPhase) -> (r: SearchPhase)
    ensures
        p == SearchPhase::Dispatching ==> r == SearchPhase::Collecting,
        p == SearchPhase::Collecting ==> r == SearchPhase::Selecting,
        p == SearchPhase::Selecting ==> r == SearchPhase::Done,
        p == SearchPhase::Done ==> r == SearchPhase::Done,
{
    match p {
        SearchPhase::Dispatching => SearchPhase::Collecting,
        SearchPhase::Collecting => SearchPhase::Selecting,
        SearchPhase::Selecting => SearchPhase::Done,
        SearchPhase::Done => SearchPhase::Done,
    }
}

// ---------------------------------------------------------------------------
// Loop decisions
// ---------------------------------------------------------------------------

/// A phase truncates its work once the elapsed seconds exceed its budget.
pub fn should_stop(elapsed_secs: u64, max_secs: u64) -> (r: bool)
    ensures
        r == (elapsed_secs > max_secs),
{
    elapsed_secs > max_secs
}

/// The restart loop logs when the new sample improved on the best result,
/// and every 10000th iteration regardless.
pub fn should_log_progress(improved: bool, iteration: u64) -> (r: bool)
    ensures
        r == (improved || iteration % 10000 == 0),
{
    improved || iteration % 10000 == 0
}

/// The seed of one search task: each task owns the RNG stream seeded with
/// the base seed offset by the task's index, so tasks are independent and
/// the whole run is reproducible.
pub fn task_seed(base_seed: u64, task_index: u64) -> (r: u64)
    requires
        base_seed + task_index <= u64::MAX,
    ensures
        r == base_seed + task_index,
{
    base_seed + task_index
}

/// Outcome of one per-musician move of a descent sweep.
#[derive(Clone, Copy, Debug, PartialEq, Eq, Structural)]
pub enum MoveDecision {
    /// The gradient was negligible: the musician stays put.
    Hold,
    /// The moved placement is still valid: keep it.
    Accept,
    /// The move created a collision: roll this musician back.
    Rollback,
}

/// The accept/rollback rule of a descent move: move only where the gradient
/// is significant, and keep the move only where the whole placement stays
/// valid afterwards; otherwise roll that musician back to its old point.
pub fn resolve_move(gradient_significant: bool, valid_after_move: bool) -> (r: MoveDecision)
    ensures
        (r == MoveDecision::Hold) == !gradient_significant,
        (r == MoveDecision::Accept) == (gradient_significant && valid_after_move),
        (r == MoveDecision::Rollback) == (gradient_significant && !valid_after_move),
{
    if !gradient_significant {
        MoveDecision::Hold
    } else if valid_after_move {
        MoveDecision::Accept
    } else {
        MoveDecision::Rollback
    }
}

// ---------------------------------------------------------------------------
// Sampler rejection budget
// ---------------------------------------------------------------------------

/// How many draws the rejection sampler may make in all: a thousand per
/// musician.  Exceeding it means the stage is too crowded for rejection
/// sampling, a fatal condition for that search attempt.
pub open spec fn sample_budget(needed: nat) -> nat {
    needed * 1000
}

/// One step of the rejection sampler's bookkeeping.
#[derive(Clone, Copy, Debug, PartialEq, Eq, Structural)]
pub enum SampleStep {
    /// The drawn point collided with nothing already placed: it is kept.
    Accepted,
    /// The drawn point collided: it is discarded and drawn again.
    Rejected,
    /// The draw budget is spent: the sampler gives up.
    Exhausted,
}

/// Bookkeeping of the rejection sampler: how many musicians are to be
/// placed, how many are placed, and how many draws were made.
#[derive(Clone, Copy, Debug)]
pub struct SamplerProgress {
    pub needed: usize,
    pub placed: usize,
    pub attempts: usize,
}

impl SamplerProgress {
    /// True while placements are still missing.
    pub open spec fn incomplete(self) -> bool {
        self.placed < self.needed
    }

    /// Fresh bookkeeping for `needed` musicians.
    pub fn new(needed: usize) -> (r: Self)
        ensures
            r.needed == needed,
            r.placed == 0,
            r.attempts == 0,
    {
        SamplerProgress { needed, placed: 0, attempts: 0 }
    }

    /// Record one draw.  The caller drew a point and reports whether it
    /// collided with an already-placed one.  The draw either exhausts the
    /// budget, is rejected as colliding, or places one musician — so the
    /// sampler fails exactly when more than a thousand draws per musician
    /// have been made.
    pub fn step(&mut self, collides: bool) -> (r: SampleStep)
        requires
            old(self).incomplete(),
            old(self).needed * 1000 < usize::MAX,
            old(self).attempts <= sample_budget(old(self).needed as nat),
        ensures
            final(self).needed == old(self).needed,
            final(self).attempts == old(self).attempts + 1,
            (r == SampleStep::Exhausted) == (final(self).attempts > sample_budget(
                final(self).needed as nat,
            )),
            (r == SampleStep::Accepted) == (final(self).attempts <= sample_budget(
                final(self).needed as nat,
            ) && !collides),
            (r == SampleStep::Rejected) == (final(self).attempts <= sample_budget(
                final(self).needed as nat,
            ) && collides),
            final(self).placed == if r == SampleStep::Accepted {
                old(self).placed + 1
            } else {
                old(self).placed as int
            },
    {
        self.attempts = self.attempts + 1;
        if self.attempts > self.needed * 1000 {
            SampleStep::Exhausted
        } else if collides {
            SampleStep::Rejected
        } else {
            self.placed = self.placed + 1;
            SampleStep::Accepted
        }
    }
}

// ---------------------------------------------------------------------------
// Best-result reduction
// ---------------------------------------------------------------------------

/// Whether report `a` beats report `b`: a strictly larger score key wins,
/// and between equal keys the lower task index wins.  This makes the
/// tie-break explicit — which task finished first never matters.
pub open spec fn report_better(a: (u64, usize), b: (u64, usize)) -> bool {
    a.0 > b.0 || (a.0 == b.0 && a.1 < b.1)
}

/// The report the reduction keeps out of a sequence of reports: the one
/// that beats every other.
pub open spec fn best_of(s: Seq<(u64, usize)>) -> Option<(u64, usize)>
    decreases s.len(),
{
    if s.len() == 0 {
        None
    } else {
        match best_of(s.drop_last()) {
            None => Some(s.last()),
            Some(b) => if report_better(s.last(), b) {
                Some(s.last())
            } else {
                Some(b)
            },
        }
    }
}

/// `best_of` keeps a report of the sequence, and one that no report of the
/// sequence beats.
pub proof fn lemma_best_of_is_max(s: Seq<(u64, usize)>)
    ensures
        (best_of(s) is Some) == (s.len() > 0),
        s.len() > 0 ==> s.contains(best_of(s).unwrap()),
        s.len() > 0 ==> forall|x: (u64, usize)|
            s.contains(x) ==> !report_better(x, best_of(s).unwrap()),
    decreases s.len(),
{
    if s.len() > 0 {
        let t = s.drop_last();
        lemma_best_of_is_max(t);
        let b = best_of(s).unwrap();
        assert(s[s.len() - 1] == s.last());
        assert(s.contains(s.last()));
        if t.len() > 0 {
            let bt = best_of(t).unwrap();
            let wit = choose|i: int| 0 <= i < t.len() && t[i] == bt;
            assert(s[wit] == bt);
            assert(s.contains(bt));
        }
        assert forall|x: (u64, usize)| s.contains(x) implies !report_better(x, b) by {
            let i = choose|i: int| 0 <= i < s.len() && s[i] == x;
            if i < s.len() - 1 {
                assert(t[i] == x);
                assert(t.contains(x));
                let bt = best_of(t).unwrap();
                assert(!report_better(x, bt));
            }
        }
    }
}

/// The reduction is insensitive to the order in which the tasks report:
/// two report sequences that hold the same reports (as a multiset) reduce
/// to the same best report.  The collector may therefore take results off
/// the channel in whatever order the tasks finish.
pub proof fn lemma_best_of_order_independent(s1: Seq<(u64, usize)>, s2: Seq<(u64, usize)>)
    requires
        s1.to_multiset() == s2.to_multiset(),
    ensures
        best_of(s1) == best_of(s2),
{
    s1.to_multiset_ensures();
    s2.to_multiset_ensures();
    assert(s1.len() == s2.len());
    if s1.len() > 0 {
        lemma_best_of_is_max(s1);
        lemma_best_of_is_max(s2);
        let b1 = best_of(s1).unwrap();
        let b2 = best_of(s2).unwrap();
        assert(s1.to_multiset().count(b1) > 0);
        assert(s2.to_multiset().count(b1) > 0);
        assert(s2.contains(b1));
        assert(s2.to_multiset().count(b2) > 0);
        assert(s1.to_multiset().count(b2) > 0);
        assert(s1.contains(b2));
        assert(!report_better(b1, b2));
        assert(!report_better(b2, b1));
        assert(b1.0 == b2.0 && b1.1 == b2.1);
        assert(b1 == b2);
    }
}

/// Collects the reports of the search tasks and keeps the best: the one
/// with the largest score key, ties broken towards the lowest task index.
pub struct Collector {
    has_best: bool,
    best_key: u64,
    best_task: usize,
    reports: Ghost<Seq<(u64, usize)>>,
}

impl Collector {
    /// Every report offered so far, in offer order.
    pub closed spec fn reports(self) -> Seq<(u64, usize)> {
        self.reports@
    }

    /// The kept fields agree with the reduction over the offered reports.
    pub closed spec fn wf(self) -> bool {
        best_of(self.reports@) == if self.has_best {
            Some((self.best_key, self.best_task))
        } else {
            None::<(u64, usize)>
        }
    }

    /// A collector that has seen nothing.
    pub fn new() -> (r: Self)
        ensures
            r.wf(),
            r.reports() =~= Seq::<(u64, usize)>::empty(),
    {
        Collector { has_best: false, best_key: 0, best_task: 0, reports: Ghost(Seq::empty()) }
    }

    /// Take one task's report: the score key and the task index.
    pub fn offer(&mut self, key: u64, task: usize)
        requires
            old(self).wf(),
        ensures
            final(self).wf(),
            final(self).reports() =~= old(self).reports().push((key, task)),
    {
        proof {
            assert(self.reports@.push((key, task)).drop_last() =~= self.reports@);
            assert(self.reports@.push((key, task)).last() == (key, task));
        }
        if !self.has_best || key > self.best_key || (key == self.best_key && task < self.best_task)
        {
            self.has_best = true;
            self.best_key = key;
            self.best_task = task;
        }
        proof {
            self.reports@ = self.reports@.push((key, task));
        }
    }

    /// The best report so far: `None` before the first offer.
    pub fn best(&self) -> (r: Option<(u64, usize)>)
        requires
            self.wf(),
        ensures
            r == best_of(self.reports()),
    {
        if self.has_best {
            Some((self.best_key, self.best_task))
        } else {
            None
        }
    }
}

} // verus!
