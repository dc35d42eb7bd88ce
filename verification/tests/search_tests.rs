use solver::logger::{level, Level};
use solver::search::{
    advance_search, advance_task, resolve_move, should_log_progress, should_stop, task_seed,
    Collector, MoveDecision, SamplerProgress, SampleStep, SearchPhase, TaskPhase,
};

#[test]
fn task_phases_run_in_order() {
    let mut phase = TaskPhase::Idle;
    let expected = [
        TaskPhase::Sampling,
        TaskPhase::Refining,
        TaskPhase::VolumeAssigning,
        TaskPhase::Reporting,
        TaskPhase::Done,
        TaskPhase::Done,
    ];
    for want in expected {
        phase = advance_task(phase);
        assert_eq!(phase, want);
    }
}

#[test]
fn search_phases_run_in_order() {
    let mut phase = SearchPhase::Dispatching;
    phase = advance_search(phase);
    assert_eq!(phase, SearchPhase::Collecting);
    phase = advance_search(phase);
    assert_eq!(phase, SearchPhase::Selecting);
    phase = advance_search(phase);
    assert_eq!(phase, SearchPhase::Done);
    phase = advance_search(phase);
    assert_eq!(phase, SearchPhase::Done);
}

#[test]
fn collector_keeps_the_best_report() {
    let mut c = Collector::new();
    assert_eq!(c.best(), None);
    c.offer(40, 2);
    c.offer(70, 1);
    c.offer(55, 0);
    assert_eq!(c.best(), Some((70, 1)));
}

#[test]
fn collector_is_order_independent() {
    let reports = [(40u64, 2usize), (70, 1), (55, 0), (70, 3)];
    let mut forward = Collector::new();
    for (key, task) in reports {
        forward.offer(key, task);
    }
    let mut backward = Collector::new();
    for &(key, task) in reports.iter().rev() {
        backward.offer(key, task);
    }
    assert_eq!(forward.best(), backward.best());
}

#[test]
fn collector_breaks_ties_towards_the_lowest_task() {
    let mut c = Collector::new();
    c.offer(70, 4);
    c.offer(70, 1);
    c.offer(70, 3);
    assert_eq!(c.best(), Some((70, 1)));
}

#[test]
fn sampler_budget_is_a_thousand_draws_per_musician() {
    let mut p = SamplerProgress::new(2);
    // 1999 colliding draws are rejections, not yet exhaustion.
    for _ in 0..1999 {
        assert_eq!(p.step(true), SampleStep::Rejected);
    }
    // The 2000th draw still fits the budget and places a musician.
    assert_eq!(p.step(false), SampleStep::Accepted);
    // The 2001st draw exceeds needed * 1000 and gives up.
    assert_eq!(p.step(false), SampleStep::Exhausted);
}

#[test]
fn sampler_counts_placements() {
    let mut p = SamplerProgress::new(3);
    assert_eq!(p.step(false), SampleStep::Accepted);
    assert_eq!(p.step(true), SampleStep::Rejected);
    assert_eq!(p.step(false), SampleStep::Accepted);
    assert_eq!(p.placed, 2);
    assert_eq!(p.attempts, 3);
}

#[test]
fn budgets_truncate_only_when_exceeded() {
    assert!(!should_stop(1000, 1000));
    assert!(should_stop(1001, 1000));
    assert!(!should_stop(0, 1000));
}

#[test]
fn progress_is_logged_on_improvement_or_round_iterations() {
    assert!(should_log_progress(true, 3));
    assert!(should_log_progress(false, 20000));
    assert!(!should_log_progress(false, 20001));
}

#[test]
fn task_seeds_are_offset_by_the_task_index() {
    assert_eq!(task_seed(1, 1), 2);
    assert_eq!(task_seed(42, 7), 49);
}

#[test]
fn moves_are_held_accepted_or_rolled_back() {
    assert_eq!(resolve_move(false, true), MoveDecision::Hold);
    assert_eq!(resolve_move(false, false), MoveDecision::Hold);
    assert_eq!(resolve_move(true, true), MoveDecision::Accept);
    assert_eq!(resolve_move(true, false), MoveDecision::Rollback);
}

#[test]
fn log_levels_map_to_single_letters() {
    assert_eq!(level(Level::Error), "E");
    assert_eq!(level(Level::Warn), "W");
    assert_eq!(level(Level::Info), "I");
    assert_eq!(level(Level::Debug), "D");
    assert_eq!(level(Level::Trace), "T");
}
