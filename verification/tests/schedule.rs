use abc::task::{Task, TaskGenerator};

#[test]
fn basic_cycle() {
    let tg = TaskGenerator::new(3, 2).max_rounds(2);
    let gathered: Vec<Task> = tg.collect_all();
    let expected = [
        Task::Worker(0),
        Task::Worker(1),
        Task::Worker(2),
        Task::Observer(0),
        Task::Observer(1),
        Task::Worker(0),
        Task::Worker(1),
        Task::Worker(2),
        Task::Observer(0),
        Task::Observer(1),
    ];
    assert_eq!(gathered.len(), expected.len());
    assert!(gathered.iter().zip(expected.iter()).all(|(x, y)| *x == *y));
}

#[test]
fn zero_round_limit_emits_nothing() {
    let mut tg = TaskGenerator::new(4, 3).max_rounds(0);
    assert_eq!(tg.next(), None);
    let tg2 = TaskGenerator::new(4, 3).max_rounds(0);
    let gathered: Vec<Task> = tg2.collect_all();
    assert_eq!(gathered.len(), 0);
}

#[test]
fn no_observers_all_worker_tokens() {
    let tg = TaskGenerator::new(2, 0).max_rounds(3);
    let gathered: Vec<Task> = tg.collect_all();
    let expected = [
        Task::Worker(0),
        Task::Worker(1),
        Task::Worker(0),
        Task::Worker(1),
        Task::Worker(0),
        Task::Worker(1),
    ];
    assert_eq!(gathered.len(), expected.len());
    assert!(gathered.iter().zip(expected.iter()).all(|(x, y)| *x == *y));
    assert!(gathered.iter().all(|t| matches!(*t, Task::Worker(_))));
}

#[test]
fn round_steps_once_per_completed_cycle() {
    let mut tg = TaskGenerator::new(2, 1);
    assert_eq!(tg.round, 0);
    assert_eq!(tg.next(), Some(Task::Worker(0)));
    assert_eq!(tg.round, 0);
    assert_eq!(tg.next(), Some(Task::Worker(1)));
    assert_eq!(tg.round, 0);
    assert_eq!(tg.next(), Some(Task::Observer(0)));
    assert_eq!(tg.round, 1);
    let mut last = 0;
    for _ in 0..20 {
        tg.next();
        assert!(tg.round >= last);
        last = tg.round;
    }
    assert_eq!(tg.round, 7);
}

#[test]
fn no_observers_still_advance_rounds() {
    let mut tg = TaskGenerator::new(2, 0);
    assert_eq!(tg.next(), Some(Task::Worker(0)));
    assert_eq!(tg.round, 0);
    assert_eq!(tg.next(), Some(Task::Worker(1)));
    assert_eq!(tg.round, 1);
}

#[test]
fn stop_exhausts_for_good() {
    let mut tg = TaskGenerator::new(3, 1);
    assert_eq!(tg.next(), Some(Task::Worker(0)));
    tg.stop();
    assert_eq!(tg.next(), None);
    assert_eq!(tg.next(), None);
}

#[test]
fn unlimited_generator_keeps_emitting() {
    let mut tg = TaskGenerator::new(1, 0);
    for _ in 0..100 {
        assert_eq!(tg.next(), Some(Task::Worker(0)));
    }
    assert_eq!(tg.round, 100);
}
