use abc::candidate::{Candidate, WorkingCandidate};
use abc::hive::Hive;
use abc::scaling::{pick_index, scale_weights, Scaling};
use abc::solution::Solution;

/// A solution whose neighborhood always holds a strictly better value.
#[derive(Clone)]
struct Climber(i64);

struct ClimberBuilder {
    next_value: i64,
}

impl Solution for Climber {
    type Builder = ClimberBuilder;

    fn make(builder: &mut ClimberBuilder) -> Climber {
        let v = builder.next_value;
        builder.next_value += 1;
        Climber(v)
    }

    fn explore(field: &Vec<Candidate<Climber>>, index: usize) -> Climber {
        Climber(field[index].solution.0 + 1)
    }

    fn evaluate(&self) -> i64 {
        self.0
    }
}

#[test]
fn run_for_rounds_returns_best() {
    let hive: Hive<Climber> = Hive::new(ClimberBuilder { next_value: 0 }, 1, 0, 5);
    let mut swarm = hive.swarm();
    assert_eq!(swarm.best.fitness, 0);
    let best = swarm.run_for_rounds(3);
    assert_eq!(best.fitness, 3);
    assert_eq!(swarm.get().fitness, 3);
    assert_eq!(swarm.get_round(), None);
}

#[test]
fn best_never_decreases_across_runs() {
    let hive: Hive<Climber> = Hive::new(ClimberBuilder { next_value: 0 }, 2, 1, 5);
    let mut swarm = hive.swarm();
    let mut last = swarm.get().fitness;
    for _ in 0..4 {
        let best = swarm.run_for_rounds(2);
        assert!(best.fitness >= last);
        last = best.fitness;
    }
}

#[test]
fn retry_budget_burns_and_resets() {
    let hive: Hive<Climber> = Hive::new(ClimberBuilder { next_value: 10 }, 1, 0, 2);
    let mut swarm = hive.swarm();
    assert_eq!(swarm.working[0].candidate.fitness, 10);
    assert_eq!(swarm.working[0].retries, 2);

    // A rejected refinement burns exactly one retry and moves nothing else.
    swarm.commit(0, Candidate::new(Climber(5)));
    assert_eq!(swarm.working[0].retries, 1);
    assert_eq!(swarm.working[0].candidate.fitness, 10);
    assert_eq!(swarm.best.fitness, 10);

    // The budget is exhausted: the member is replaced by a fresh build (the
    // builder hands out 11 next) at full budget, and the best hears of it.
    swarm.commit(0, Candidate::new(Climber(5)));
    assert_eq!(swarm.working[0].retries, 2);
    assert_eq!(swarm.working[0].candidate.fitness, 11);
    assert_eq!(swarm.best.fitness, 11);

    // An accepted improvement resets the budget too.
    swarm.commit(0, Candidate::new(Climber(50)));
    assert_eq!(swarm.working[0].retries, 2);
    assert_eq!(swarm.working[0].candidate.fitness, 50);
    assert_eq!(swarm.best.fitness, 50);
}

#[test]
fn zero_retry_budget_replaces_on_first_failure() {
    let hive: Hive<Climber> = Hive::new(ClimberBuilder { next_value: 20 }, 1, 0, 0);
    let mut swarm = hive.swarm();
    assert_eq!(swarm.working[0].candidate.fitness, 20);
    swarm.commit(0, Candidate::new(Climber(3)));
    assert_eq!(swarm.working[0].candidate.fitness, 21);
    assert_eq!(swarm.working[0].retries, 0);
}

#[test]
fn stop_without_active_run_is_noop() {
    let hive: Hive<Climber> = Hive::new(ClimberBuilder { next_value: 7 }, 2, 1, 3);
    let mut swarm = hive.swarm();
    let before = swarm.get().fitness;
    assert_eq!(swarm.get_round(), None);
    swarm.stop();
    swarm.stop();
    assert_eq!(swarm.get_round(), None);
    assert_eq!(swarm.get().fitness, before);
    assert_eq!(swarm.working.len(), 2);
}

#[test]
fn stop_active_run_exhausts_schedule() {
    let hive: Hive<Climber> = Hive::new(ClimberBuilder { next_value: 0 }, 2, 0, 3);
    let mut swarm = hive.swarm();
    swarm.start_tasks(None);
    assert_eq!(swarm.get_round(), Some(0));
    assert!(swarm.pull_task().is_some());
    swarm.stop();
    assert_eq!(swarm.pull_task(), None);
    swarm.clear_tasks();
    assert_eq!(swarm.get_round(), None);
}

#[test]
fn rounds_observed_never_decrease() {
    let hive: Hive<Climber> = Hive::new(ClimberBuilder { next_value: 0 }, 2, 0, 3);
    let mut swarm = hive.swarm();
    swarm.start_tasks(Some(3));
    let mut last = 0;
    while let Some(task) = swarm.pull_task() {
        swarm.execute(&task);
        let round = swarm.get_round().unwrap();
        assert!(round >= last);
        last = round;
    }
    assert_eq!(last, 3);
    swarm.clear_tasks();
}

#[test]
fn observers_run_to_completion() {
    let hive: Hive<Climber> = Hive::new(ClimberBuilder { next_value: 0 }, 3, 2, 4);
    let mut swarm = hive.swarm();
    let before = swarm.get().fitness;
    let best = swarm.run_for_rounds(2);
    assert!(best.fitness >= before);
}

#[test]
fn selection_yields_valid_index() {
    let hive: Hive<Climber> = Hive::new(ClimberBuilder { next_value: 5 }, 1, 1, 3);
    let swarm = hive.swarm();
    let snapshot = swarm.current_working();
    assert_eq!(swarm.select_target(&snapshot), 0);
}

#[test]
fn selection_falls_back_uniform_on_zero_weights() {
    // A single member of negative fitness scales to weight zero under the
    // proportionate scaling, so the draw falls back to a uniform one.
    let hive: Hive<Climber> = Hive::new(ClimberBuilder { next_value: -9 }, 1, 1, 3);
    let swarm = hive.swarm();
    let snapshot = swarm.current_working();
    assert_eq!(snapshot[0].fitness, -9);
    assert_eq!(swarm.select_target(&snapshot), 0);
}

#[test]
fn proportionate_weights_clamp_at_zero() {
    let w = scale_weights(&Scaling::Proportionate, &vec![-5, 0, 3]);
    assert_eq!(w, vec![0, 0, 3]);
}

#[test]
fn uniform_weights_ignore_fitness() {
    let w = scale_weights(&Scaling::Uniform, &vec![-5, 0, 3]);
    assert_eq!(w, vec![1, 1, 1]);
}

#[test]
fn pick_index_matches_cumulative_table() {
    let weights = vec![2u64, 0, 3];
    assert_eq!(pick_index(&weights, 0), 0);
    assert_eq!(pick_index(&weights, 1), 0);
    assert_eq!(pick_index(&weights, 2), 2);
    assert_eq!(pick_index(&weights, 3), 2);
    assert_eq!(pick_index(&weights, 4), 2);
}

#[test]
fn hive_setters_take_effect() {
    let hive: Hive<Climber> = Hive::new(ClimberBuilder { next_value: 0 }, 2, 1, 3);
    assert!(hive.threads >= 1);
    assert_eq!(hive.scale, Scaling::Proportionate);
    let hive = hive.set_threads(4).set_scaling(Scaling::Uniform);
    assert_eq!(hive.threads, 4);
    assert_eq!(hive.scale, Scaling::Uniform);
    assert_eq!(hive.workers, 2);
    assert_eq!(hive.observers, 1);
    assert_eq!(hive.retries, 3);
}

#[test]
fn candidate_duplicate_keeps_fitness() {
    let c = Candidate::new(Climber(42));
    assert_eq!(c.fitness, 42);
    let d = c.duplicate();
    assert_eq!(d.fitness, 42);
    assert_eq!(d.solution.0, 42);
}

#[test]
fn working_candidate_deplete_stops_at_zero() {
    let mut w = WorkingCandidate::new(Candidate::new(Climber(1)), 1);
    assert!(!w.expired());
    w.deplete();
    assert!(w.expired());
    w.deplete();
    assert_eq!(w.retries, 0);
    assert!(w.expired());
}

#[test]
fn rank_weights_count_strictly_worse() {
    let w = scale_weights(&Scaling::Rank, &vec![-5, 3, 3, 7]);
    assert_eq!(w, vec![1, 2, 2, 4]);
    let single = scale_weights(&Scaling::Rank, &vec![-100]);
    assert_eq!(single, vec![1]);
}
