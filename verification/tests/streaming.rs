use std::sync::mpsc::channel;

use abc::candidate::Candidate;
use abc::hive::Hive;
use abc::solution::Solution;

/// A solution whose neighborhood always holds a strictly better value.
#[derive(Clone)]
struct Riser(i64);

struct RiserBuilder {
    start: i64,
}

impl Solution for Riser {
    type Builder = RiserBuilder;

    fn make(builder: &mut RiserBuilder) -> Riser {
        Riser(builder.start)
    }

    fn explore(field: &Vec<Candidate<Riser>>, index: usize) -> Riser {
        Riser(field[index].solution.0 + 1)
    }

    fn evaluate(&self) -> i64 {
        self.0
    }
}

/// A solution whose neighborhood never improves on it.
#[derive(Clone)]
struct Plateau(i64);

struct PlateauBuilder {
    level: i64,
}

impl Solution for Plateau {
    type Builder = PlateauBuilder;

    fn make(builder: &mut PlateauBuilder) -> Plateau {
        Plateau(builder.level)
    }

    fn explore(field: &Vec<Candidate<Plateau>>, index: usize) -> Plateau {
        Plateau(field[index].solution.0)
    }

    fn evaluate(&self) -> i64 {
        self.0
    }
}

#[test]
fn stream_yields_one_item_per_improvement() {
    let hive: Hive<Riser> = Hive::new(RiserBuilder { start: 0 }, 1, 0, 3);
    let mut swarm = hive.swarm();
    let (tx, rx) = channel();
    swarm.attach_sink(tx);
    let best = swarm.run_for_rounds(4);
    assert_eq!(best.fitness, 4);
    let published: Vec<i64> = rx.try_iter().map(|c| c.fitness).collect();
    assert_eq!(published, vec![1, 2, 3, 4]);
    assert!(published.windows(2).all(|p| p[0] < p[1]));
}

#[test]
fn stream_skips_ties() {
    let hive: Hive<Plateau> = Hive::new(PlateauBuilder { level: 5 }, 1, 0, 10);
    let mut swarm = hive.swarm();
    let (tx, rx) = channel();
    swarm.attach_sink(tx);
    let best = swarm.run_for_rounds(3);
    assert_eq!(best.fitness, 5);
    assert_eq!(rx.try_iter().count(), 0);
}

#[test]
fn dropped_receiver_stops_the_run() {
    let hive: Hive<Riser> = Hive::new(RiserBuilder { start: 0 }, 1, 0, 3);
    let mut swarm = hive.swarm();
    let (tx, rx) = channel();
    swarm.attach_sink(tx);
    drop(rx);
    // The first improvement finds the receiving half gone; that raises the
    // stop flag, so a run that would otherwise go a very long time returns
    // after a single token.
    let best = swarm.run_for_rounds(1_000_000);
    assert_eq!(best.fitness, 1);
    assert_eq!(swarm.get_round(), None);
}
