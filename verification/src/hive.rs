//! The engine: configuration, the population store with its best-candidate
//! slot, observer-role selection, the per-token refinement protocol, and the
//! run/stop/round-query operations, plus the optional streaming sink that
//! receives a duplicate of the best candidate on every improvement.

use vstd::prelude::*;
use crate::candidate::{Candidate, WorkingCandidate, fitnesses_of};
use crate::scaling::{
    Scaling, pick_index, prefix_weight, scale_weights, total_weight, weight_seq,
};
use crate::solution::Solution;
use crate::task::{Task, TaskGenerator};

verus! {

/// The channel sender of std, declared opaquely so a swarm can hold the
/// streaming sink it publishes improvements to.
#[verifier::external_type_specification]
#[verifier::external_body]
#[verifier::reject_recursive_types(T)]
pub struct ExSender<T>(std::sync::mpsc::Sender<T>);

/// Relies on num_cpus::get, which reports the number of logical cores and is
/// documented to report at least one.
#[verifier::external_body]
fn core_count() -> (n: usize)
    ensures
        n >= 1,
{
    num_cpus::get()
}

/// Relies on rand::random_range over the half-open range up to `bound`: the
/// draw lies below the bound, and the call panics only on an empty range,
/// which the precondition rules out. Nothing more is assumed of a random
/// value.
#[verifier::external_body]
fn draw_below(bound: u128) -> (r: u128)
    requires
        bound > 0,
    ensures
        r < bound,
{
    rand::random_range(0..bound)
}

/// Relies on std::sync::mpsc::Sender::send, which delivers the value and
/// fails exactly when the receiving half has been dropped. Nothing is
/// assumed of the outcome: the caller decides what either case means.
#[verifier::external_body]
fn send_to_sink<S: Solution>(
    sink: &std::sync::mpsc::Sender<Candidate<S>>,
    candidate: Candidate<S>,
) -> (delivered: bool) {
    sink.send(candidate).is_ok()
}

/// A sequence in which every later entry is strictly larger.
pub open spec fn strictly_increasing(s: Seq<int>) -> bool {
    forall|i: int, j: int| 0 <= i < j < s.len() ==> s[i] < s[j]
}

/// Every population slot but `i` holds in `post` exactly what it held in
/// `pre`.
pub open spec fn only_slot_changed<S: Solution>(
    pre: Seq<WorkingCandidate<S>>,
    post: Seq<WorkingCandidate<S>>,
    i: int,
) -> bool {
    forall|j: int| 0 <= j < pre.len() && j != i ==> post[j] == pre[j]
}

/// The installed scheduler with its stop flag raised; an absent scheduler
/// stays absent.
pub open spec fn stopped_tasks(t: Option<TaskGenerator>) -> Option<TaskGenerator> {
    match t {
        Some(g) => Some(TaskGenerator { stopped: true, ..g }),
        None => None,
    }
}

/// Appending a value strictly above everything seen keeps a published
/// sequence strictly increasing.
proof fn lemma_push_improvement(s: Seq<int>, bound: int, v: int)
    requires
        strictly_increasing(s),
        s.len() > 0 ==> s.last() <= bound,
        v > bound,
    ensures
        strictly_increasing(s.push(v)),
{
    let t = s.push(v);
    assert forall|i: int, j: int| 0 <= i < j < t.len() implies t[i] < t[j] by {
        if j == s.len() as int {
            if i < s.len() - 1 {
                assert(s[i] < s[s.len() - 1]);
            }
        }
    }
}

/// Manages the parameters of the colony: counts, retry budget, builder,
/// thread count for a pool driver, and the observers' scaling.
pub struct Hive<S: Solution> {
    pub workers: usize,
    pub observers: usize,
    pub retries: usize,
    pub builder: S::Builder,
    pub threads: usize,
    pub scale: Scaling,
}

impl<S: Solution> Hive<S> {
    /// Creates a new hive.
    ///
    /// * `workers` - number of working solution candidates maintained at a
    ///   time; there must be at least one.
    /// * `observers` - number of tokens per round that pick their target by
    ///   weighted selection instead of a fixed slot.
    /// * `retries` - how often a candidate may be worked on without
    ///   improvement before it counts as a local maximum and is replaced.
    ///
    /// The thread count defaults to the number of available cores, and the
    /// scaling to fitness-proportionate.
    pub fn new(builder: S::Builder, workers: usize, observers: usize, retries: usize) -> (h: Hive<
        S,
    >)
        requires
            workers >= 1,
        ensures
            h.workers == workers,
            h.observers == observers,
            h.retries == retries,
            h.builder == builder,
            h.scale == Scaling::Proportionate,
            h.threads >= 1,
    {
        let threads = core_count();
        Hive { workers, observers, retries, builder, threads, scale: Scaling::Proportionate }
    }

    /// Sets the number of pool threads a driver should use while running.
    pub fn set_threads(self, threads: usize) -> (h: Hive<S>)
        ensures
            h == (Hive { threads, ..self }),
    {
        Hive { threads, ..self }
    }

    /// Sets the scaling the observers use.
    pub fn set_scaling(self, scale: Scaling) -> (h: Hive<S>)
        ensures
            h == (Hive { scale, ..self }),
    {
        Hive { scale, ..self }
    }

    /// Activates the hive: builds the initial population, one fresh
    /// candidate per worker, and seats the best of them in the best slot.
    pub fn swarm(self) -> (s: Swarm<S>)
        requires
            self.workers >= 1,
        ensures
            s.wf(),
            s.hive.workers == self.workers,
            s.hive.observers == self.observers,
            s.hive.retries == self.retries,
            s.hive.threads == self.threads,
            s.hive.scale == self.scale,
            s.working@.len() == self.workers,
            forall|i: int| 0 <= i < s.working@.len() ==> (#[trigger] s.working@[i]).retries
                == self.retries,
            s.tasks == None::<TaskGenerator>,
            s.streaming is None,
            s.emitted@ == Seq::<int>::empty(),
            s.completed_rounds@ == None::<usize>,
            exists|i: int| 0 <= i < s.working@.len() && s.best.fitness == (#[trigger] s.working@[i]).candidate.fitness,
    {
        Swarm::new(self)
    }
}

/// Runs the colony and holds all of its state: the population slots, the
/// best candidate ever observed, the installed scheduler of an active run,
/// and the optional streaming sink. `emitted` is the ghost history of the
/// fitness values published to the current sink.
#[verifier::reject_recursive_types(S)]
pub struct Swarm<S: Solution> {
    pub hive: Hive<S>,
    pub working: Vec<WorkingCandidate<S>>,
    pub best: Candidate<S>,
    pub tasks: Option<TaskGenerator>,
    pub streaming: Option<std::sync::mpsc::Sender<Candidate<S>>>,
    pub emitted: Ghost<Seq<int>>,
    /// Ghost record of the round counter the most recently cleared schedule
    /// had reached; absent before the first run completes.
    pub completed_rounds: Ghost<Option<usize>>,
}

impl<S: Solution> Swarm<S> {
    /// What has been published to the sink so far never repeats and never
    /// falls, and it never gets ahead of the best fitness on record.
    pub open spec fn stream_ok(self) -> bool {
        &&& strictly_increasing(self.emitted@)
        &&& (self.emitted@.len() > 0 ==> self.emitted@.last() <= self.best.fitness)
    }

    /// The engine's invariant: one slot per worker; no slot above the best
    /// on record; no retry counter above the configured budget; an installed
    /// scheduler coherent and matching the configured counts; and a coherent
    /// publication history.
    pub open spec fn wf(self) -> bool {
        &&& self.hive.workers >= 1
        &&& self.working@.len() == self.hive.workers
        &&& forall|i: int| 0 <= i < self.working@.len() ==> (#[trigger] self.working@[i]).retries
            <= self.hive.retries
        &&& forall|i: int| 0 <= i < self.working@.len() ==> (#[trigger] self.working@[i]).candidate.fitness <= self.best.fitness
        &&& match self.tasks {
            Some(g) => g.wf() && g.workers == self.hive.workers && g.observers
                == self.hive.observers,
            None => true,
        }
        &&& self.stream_ok()
    }

    /// The configuration fields that no run ever changes (the builder, which
    /// construction calls feed, is deliberately not among them).
    pub open spec fn setup_eq(self, other: Swarm<S>) -> bool {
        &&& self.hive.workers == other.hive.workers
        &&& self.hive.observers == other.hive.observers
        &&& self.hive.retries == other.hive.retries
        &&& self.hive.threads == other.hive.threads
        &&& self.hive.scale == other.hive.scale
    }

    fn new(hive: Hive<S>) -> (s: Swarm<S>)
        requires
            hive.workers >= 1,
        ensures
            s.wf(),
            s.hive.workers == hive.workers,
            s.hive.observers == hive.observers,
            s.hive.retries == hive.retries,
            s.hive.threads == hive.threads,
            s.hive.scale == hive.scale,
            s.working@.len() == hive.workers,
            forall|i: int| 0 <= i < s.working@.len() ==> (#[trigger] s.working@[i]).retries
                == hive.retries,
            s.tasks == None::<TaskGenerator>,
            s.streaming is None,
            s.emitted@ == Seq::<int>::empty(),
            s.completed_rounds@ == None::<usize>,
            exists|i: int| 0 <= i < s.working@.len() && s.best.fitness == (#[trigger] s.working@[i]).candidate.fitness,
    {
        let mut h = hive;
        let workers = h.workers;
        let retries = h.retries;
        let mut working: Vec<WorkingCandidate<S>> = Vec::new();
        let mut i: usize = 0;
        while i < workers
            invariant
                i <= workers,
                working@.len() == i,
                forall|j: int| 0 <= j < i ==> (#[trigger] working@[j]).retries == retries,
                h.workers == hive.workers,
                h.observers == hive.observers,
                h.retries == hive.retries,
                h.threads == hive.threads,
                h.scale == hive.scale,
                workers == hive.workers,
                retries == hive.retries,
            decreases workers - i,
        {
            let solution = S::make(&mut h.builder);
            working.push(WorkingCandidate::new(Candidate::new(solution), retries));
            i = i + 1;
        }
        let mut best_index: usize = 0;
        let mut k: usize = 1;
        while k < workers
            invariant
                1 <= k <= workers,
                workers >= 1,
                working@.len() == workers,
                best_index < k,
                forall|j: int| 0 <= j < k ==> (#[trigger] working@[j]).candidate.fitness
                    <= working@[best_index as int].candidate.fitness,
            decreases workers - k,
        {
            if working[k].candidate.fitness > working[best_index].candidate.fitness {
                best_index = k;
            }
            k = k + 1;
        }
        let best = working[best_index].candidate.duplicate();
        let s = Swarm {
            hive: h,
            working,
            best,
            tasks: None,
            streaming: None,
            emitted: Ghost(Seq::empty()),
            completed_rounds: Ghost(None),
        };
        proof {
            assert(exists|i: int|
                0 <= i < s.working@.len() && s.best.fitness == (#[trigger] s.working@[
                i]).candidate.fitness) by {
                let w: int = best_index as int;
                assert(0 <= w < s.working@.len() && s.best.fitness == s.working@[
                    w].candidate.fitness);
            }
        }
        s
    }

    /// A point-in-time copy of the population's candidates, slot by slot.
    /// Staleness is tolerated by design: refinement compares against the
    /// slot's live value, not against this copy.
    pub fn current_working(&self) -> (v: Vec<Candidate<S>>)
        ensures
            v@.len() == self.working@.len(),
            forall|i: int| 0 <= i < v@.len() ==> (#[trigger] v@[i]).fitness == self.working@[i].candidate.fitness,
    {
        let n = self.working.len();
        let mut v: Vec<Candidate<S>> = Vec::new();
        let mut i: usize = 0;
        while i < n
            invariant
                i <= n,
                n == self.working@.len(),
                v@.len() == i,
                forall|j: int| 0 <= j < i ==> (#[trigger] v@[j]).fitness == self.working@[j].candidate.fitness,
            decreases n - i,
        {
            v.push(self.working[i].candidate.duplicate());
            i = i + 1;
        }
        v
    }

    /// A duplicate of the best candidate found so far: a non-blocking read.
    pub fn get(&self) -> (c: Candidate<S>)
        ensures
            c.fitness == self.best.fitness,
    {
        self.best.duplicate()
    }

    /// Observer-role selection: scales the snapshot's fitness values into
    /// weights, draws against the cumulative table, and yields the index
    /// whose interval holds the draw. A slot with weight zero is never
    /// picked; when every weight is zero the draw falls back to a uniform
    /// one, so selection still yields a valid index.
    pub fn select_target(&self, snapshot: &Vec<Candidate<S>>) -> (i: usize)
        requires
            snapshot@.len() >= 1,
        ensures
            i < snapshot@.len(),
            total_weight(weight_seq(self.hive.scale, fitnesses_of(snapshot@))) > 0
                ==> weight_seq(self.hive.scale, fitnesses_of(snapshot@))[i as int] > 0,
    {
        let fitnesses = fitness_vec(snapshot);
        let weights = scale_weights(&self.hive.scale, &fitnesses);
        let total = sum_weights(&weights);
        if total > 0 {
            let draw = draw_below(total);
            pick_index(&weights, draw)
        } else {
            let d = draw_below(snapshot.len() as u128);
            d as usize
        }
    }

    /// The round counter of an active run, or nothing when no run is
    /// installed. Across any one run the reported value never decreases.
    pub fn get_round(&self) -> (r: Option<usize>)
        ensures
            r == (match self.tasks {
                Some(g) => Some(g.round),
                None => None::<usize>,
            }),
    {
        match &self.tasks {
            Some(g) => Some(g.round),
            None => None,
        }
    }

    /// Requests a stop of the active run: no further token will be handed
    /// out. With no active run this is a no-op and never fails.
    pub fn stop(&mut self)
        requires
            old(self).wf(),
        ensures
            final(self).wf(),
            final(self).tasks == stopped_tasks(old(self).tasks),
            final(self).hive == old(self).hive,
            final(self).working == old(self).working,
            final(self).best == old(self).best,
            final(self).streaming == old(self).streaming,
            final(self).emitted == old(self).emitted,
            final(self).completed_rounds == old(self).completed_rounds,
            old(self).tasks == None::<TaskGenerator> ==> *final(self) == *old(self),
    {
        match &mut self.tasks {
            Some(g) => g.stop(),
            None => {},
        }
    }

    /// Attaches a streaming sink: from here on, every improvement of the
    /// best candidate is published to it as a duplicate.
    pub fn attach_sink(&mut self, sink: std::sync::mpsc::Sender<Candidate<S>>)
        requires
            old(self).wf(),
        ensures
            final(self).wf(),
            final(self).streaming == Some(sink),
            final(self).emitted@ == Seq::<int>::empty(),
            final(self).hive == old(self).hive,
            final(self).working == old(self).working,
            final(self).best == old(self).best,
            final(self).tasks == old(self).tasks,
            final(self).completed_rounds == old(self).completed_rounds,
    {
        self.streaming = Some(sink);
        self.emitted = Ghost(Seq::empty());
    }

    /// Best-candidate tracking: a strictly better candidate replaces the
    /// best on record and, while a sink is attached, is published to it —
    /// exactly once per true improvement, nothing for a tie or a fall. A
    /// sink whose receiving half is gone raises the stop flag of the active
    /// run instead of failing the run.
    fn consider_improvement(&mut self, candidate: &Candidate<S>)
        requires
            old(self).stream_ok(),
        ensures
            final(self).stream_ok(),
            final(self).hive == old(self).hive,
            final(self).working == old(self).working,
            final(self).streaming == old(self).streaming,
            final(self).completed_rounds == old(self).completed_rounds,
            final(self).best.fitness >= old(self).best.fitness,
            final(self).best.fitness >= candidate.fitness,
            candidate.fitness > old(self).best.fitness ==> final(self).best.fitness
                == candidate.fitness,
            candidate.fitness <= old(self).best.fitness ==> *final(self) == *old(self),
            old(self).emitted@.is_prefix_of(final(self).emitted@),
            final(self).tasks == old(self).tasks || final(self).tasks == stopped_tasks(
                old(self).tasks,
            ),
            candidate.fitness > old(self).best.fitness ==> (match old(self).streaming {
                Some(_) => (final(self).emitted@ == old(self).emitted@.push(
                    candidate.fitness as int,
                ) && final(self).tasks == old(self).tasks) || (final(self).emitted@ == old(
                    self,
                ).emitted@ && final(self).tasks == stopped_tasks(old(self).tasks)),
                None => final(self).emitted@ == old(self).emitted@ && final(self).tasks == old(
                    self,
                ).tasks,
            }),
    {
        if candidate.fitness > self.best.fitness {
            self.best = candidate.duplicate();
            let mut lost_sink: bool = false;
            match &self.streaming {
                Some(sink) => {
                    let delivered = send_to_sink(sink, candidate.duplicate());
                    if delivered {
                        proof {
                            lemma_push_improvement(
                                self.emitted@,
                                old(self).best.fitness as int,
                                candidate.fitness as int,
                            );
                        }
                        self.emitted = Ghost(self.emitted@.push(candidate.fitness as int));
                    } else {
                        lost_sink = true;
                    }
                },
                None => {},
            }
            if lost_sink {
                match &mut self.tasks {
                    Some(g) => g.stop(),
                    None => {},
                }
            }
        }
    }

    /// One refinement-protocol step for slot `index`, `variant` being the
    /// candidate that exploration produced for it. A strict improvement
    /// replaces the slot's member at full retry budget; anything else burns
    /// one retry, and once the budget is exhausted the member is replaced by
    /// a freshly built candidate at full budget, whatever its fitness.
    /// Either replacement is offered to the best slot, so the best fitness
    /// on record never decreases. The retry counter never wraps below zero.
    pub fn commit(&mut self, index: usize, variant: Candidate<S>)
        requires
            old(self).wf(),
            index < old(self).working@.len(),
        ensures
            final(self).wf(),
            final(self).setup_eq(*old(self)),
            final(self).streaming == old(self).streaming,
            final(self).working@.len() == old(self).working@.len(),
            forall|j: int|
                0 <= j < old(self).working@.len() && j != index ==> final(self).working@[j] == old(
                    self,
                ).working@[j],
            final(self).best.fitness >= old(self).best.fitness,
            final(self).best.fitness >= final(self).working@[index as int].candidate.fitness,
            old(self).emitted@.is_prefix_of(final(self).emitted@),
            final(self).tasks == old(self).tasks || final(self).tasks == stopped_tasks(
                old(self).tasks,
            ),
            final(self).completed_rounds == old(self).completed_rounds,
            old(self).streaming is None ==> final(self).tasks == old(self).tasks,
            variant.fitness > old(self).working@[index as int].candidate.fitness ==> {
                &&& final(self).working@[index as int].candidate == variant
                &&& final(self).working@[index as int].retries == old(self).hive.retries
                &&& final(self).best.fitness >= variant.fitness
            },
            (variant.fitness <= old(self).working@[index as int].candidate.fitness && old(
                self,
            ).working@[index as int].retries > 1) ==> {
                &&& final(self).working@[index as int].candidate == old(self).working@[
                    index as int].candidate
                &&& final(self).working@[index as int].retries == old(self).working@[
                    index as int].retries - 1
                &&& final(self).best == old(self).best
                &&& final(self).emitted == old(self).emitted
                &&& final(self).tasks == old(self).tasks
            },
            (variant.fitness <= old(self).working@[index as int].candidate.fitness && old(
                self,
            ).working@[index as int].retries <= 1) ==> final(self).working@[
                index as int].retries == old(self).hive.retries,
            variant.fitness > old(self).best.fitness ==> {
                &&& final(self).best.fitness == variant.fitness
                &&& match old(self).streaming {
                    Some(_) => (final(self).emitted@ == old(self).emitted@.push(
                        variant.fitness as int,
                    ) && final(self).tasks == old(self).tasks) || (final(self).emitted@ == old(
                        self,
                    ).emitted@ && final(self).tasks == stopped_tasks(old(self).tasks)),
                    None => final(self).emitted@ == old(self).emitted@,
                }
            },
            (variant.fitness <= old(self).best.fitness && variant.fitness > old(self).working@[
                index as int].candidate.fitness) ==> final(self).emitted@ == old(self).emitted@
                && final(self).best == old(self).best,
    {
        let improved = variant.fitness > self.working[index].candidate.fitness;
        if improved {
            let budget = self.hive.retries;
            let replacement = WorkingCandidate::new(variant, budget);
            let announce = replacement.candidate.duplicate();
            self.working.set(index, replacement);
            self.consider_improvement(&announce);
        } else {
            let mut slot = self.working.remove(index);
            slot.deplete();
            let expired = slot.expired();
            if expired {
                let solution = S::make(&mut self.hive.builder);
                let budget = self.hive.retries;
                slot = WorkingCandidate::new(Candidate::new(solution), budget);
            }
            let announce = slot.candidate.duplicate();
            self.working.insert(index, slot);
            proof {
                assert(self.working@ =~= old(self).working@.update(index as int, slot));
            }
            if expired {
                self.consider_improvement(&announce);
            }
        }
    }

    /// Executes one token: takes a population snapshot, aims a worker token
    /// at its own slot and an observer token at a selected one, explores on
    /// the snapshot — before the slot is touched — and commits the outcome.
    /// With no observers configured, selection is never consulted, since no
    /// observer token is ever emitted.
    pub fn execute(&mut self, task: &Task)
        requires
            old(self).wf(),
            match *task {
                Task::Worker(n) => n < old(self).working@.len(),
                Task::Observer(_) => true,
            },
        ensures
            final(self).wf(),
            final(self).setup_eq(*old(self)),
            final(self).streaming == old(self).streaming,
            final(self).working@.len() == old(self).working@.len(),
            final(self).best.fitness >= old(self).best.fitness,
            old(self).emitted@.is_prefix_of(final(self).emitted@),
            final(self).tasks == old(self).tasks || final(self).tasks == stopped_tasks(
                old(self).tasks,
            ),
            final(self).completed_rounds == old(self).completed_rounds,
            old(self).streaming is None ==> final(self).tasks == old(self).tasks,
            exists|i: int|
                0 <= i < old(self).working@.len() && #[trigger] only_slot_changed(
                    old(self).working@,
                    final(self).working@,
                    i,
                ),
            match *task {
                Task::Worker(n) => only_slot_changed(
                    old(self).working@,
                    final(self).working@,
                    n as int,
                ),
                Task::Observer(_) => true,
            },
    {
        let snapshot = self.current_working();
        let index = match task {
            Task::Worker(n) => *n,
            Task::Observer(_) => self.select_target(&snapshot),
        };
        let variant = Candidate::new(S::explore(&snapshot, index));
        self.commit(index, variant);
        proof {
            assert(only_slot_changed(old(self).working@, self.working@, index as int));
        }
    }

    /// Pulls the next token of the active run, or reports exhaustion — at
    /// once when no run is installed. An emitted worker token always names a
    /// slot the population has, and the round counter never decreases.
    pub fn pull_task(&mut self) -> (t: Option<Task>)
        requires
            old(self).wf(),
        ensures
            final(self).wf(),
            final(self).hive == old(self).hive,
            final(self).working == old(self).working,
            final(self).best == old(self).best,
            final(self).streaming == old(self).streaming,
            final(self).emitted == old(self).emitted,
            final(self).completed_rounds == old(self).completed_rounds,
            match t {
                Some(tok) => match tok {
                    Task::Worker(n) => n < final(self).working@.len(),
                    Task::Observer(x) => x < final(self).hive.observers,
                },
                None => true,
            },
            match old(self).tasks {
                Some(g) => {
                    &&& (g.stopped ==> t == None::<Task> && *final(self) == *old(self))
                    &&& (!g.stopped ==> t == Some(g.next_task) && (final(self).tasks matches Some(
                        g1,
                    ) && g1.advanced_from(g)))
                },
                None => t == None::<Task> && *final(self) == *old(self),
            },
    {
        match &mut self.tasks {
            Some(g) => g.next(),
            None => None,
        }
    }

    /// Installs a fresh scheduler over this population: with a round limit
    /// for a bounded run, without one for a run that goes until stopped.
    pub fn start_tasks(&mut self, limit: Option<usize>)
        requires
            old(self).wf(),
        ensures
            final(self).wf(),
            final(self).hive == old(self).hive,
            final(self).working == old(self).working,
            final(self).best == old(self).best,
            final(self).streaming == old(self).streaming,
            final(self).emitted == old(self).emitted,
            final(self).completed_rounds == old(self).completed_rounds,
            final(self).tasks matches Some(g) && g.is_fresh() && g.workers == old(
                self,
            ).hive.workers && g.observers == old(self).hive.observers && g.max_rounds == limit
                && g.limit_ok() && g.round == 0,
    {
        let g0 = TaskGenerator::new(self.hive.workers, self.hive.observers);
        let g = match limit {
            Some(m) => g0.max_rounds(m),
            None => g0,
        };
        self.tasks = Some(g);
    }

    /// Clears the installed scheduler: the run is over. The round counter it
    /// had reached is kept on ghost record.
    pub fn clear_tasks(&mut self)
        requires
            old(self).wf(),
        ensures
            final(self).wf(),
            final(self).hive == old(self).hive,
            final(self).working == old(self).working,
            final(self).best == old(self).best,
            final(self).streaming == old(self).streaming,
            final(self).emitted == old(self).emitted,
            final(self).tasks == None::<TaskGenerator>,
            final(self).completed_rounds@ == (match old(self).tasks {
                Some(g) => Some(g.round),
                None => old(self).completed_rounds@,
            }),
    {
        let ghost recorded: Option<usize> = match &self.tasks {
            Some(g) => Some(g.round),
            None => self.completed_rounds@,
        };
        self.completed_rounds = Ghost(recorded);
        self.tasks = None;
    }

    /// Drains a round-limited scheduler: pull a token, execute it, and loop
    /// until the schedule is exhausted — by its limit, or early through the
    /// stop flag.
    fn run_installed(&mut self)
        requires
            old(self).wf(),
            old(self).tasks matches Some(g) && g.max_rounds matches Some(_) && g.limit_ok() && (
            g.stopped ==> Some(g.round) == g.max_rounds),
        ensures
            final(self).wf(),
            final(self).setup_eq(*old(self)),
            final(self).streaming == old(self).streaming,
            final(self).completed_rounds == old(self).completed_rounds,
            final(self).working@.len() == old(self).working@.len(),
            final(self).best.fitness >= old(self).best.fitness,
            old(self).emitted@.is_prefix_of(final(self).emitted@),
            old(self).tasks matches Some(g0) && final(self).tasks matches Some(g1)
                && g1.max_rounds == g0.max_rounds && g1.stopped,
            old(self).streaming is None ==> (final(self).tasks matches Some(g1) && Some(g1.round)
                == g1.max_rounds),
    {
        let ghost start = *old(self);
        let ghost limit = match start.tasks {
            Some(g0) => g0.max_rounds,
            None => arbitrary(),
        };
        loop
            invariant
                self.wf(),
                self.setup_eq(start),
                self.streaming == start.streaming,
                self.completed_rounds == start.completed_rounds,
                self.working@.len() == start.working@.len(),
                self.best.fitness >= start.best.fitness,
                start.emitted@.is_prefix_of(self.emitted@),
                limit matches Some(_),
                self.tasks matches Some(g) && g.max_rounds == limit && g.limit_ok(),
                start.streaming is None ==> (self.tasks matches Some(g) ==> (g.stopped
                    ==> Some(g.round) == g.max_rounds)),
            ensures
                self.wf(),
                self.setup_eq(start),
                self.streaming == start.streaming,
                self.completed_rounds == start.completed_rounds,
                self.working@.len() == start.working@.len(),
                self.best.fitness >= start.best.fitness,
                start.emitted@.is_prefix_of(self.emitted@),
                self.tasks matches Some(g) && g.max_rounds == limit && g.stopped,
                start.streaming is None ==> (self.tasks matches Some(g) && Some(g.round)
                    == g.max_rounds),
            decreases self.run_measure(),
        {
            let ghost pre = *self;
            proof {
                let g = match pre.tasks {
                    Some(g) => g,
                    None => arbitrary(),
                };
                lemma_measure_shape(g);
            }
            let t = match &mut self.tasks {
                Some(g) => g.next(),
                None => None,
            };
            match t {
                Some(task) => {
                    self.execute(&task);
                },
                None => {
                    break;
                },
            }
        }
    }

    /// The distance an installed, round-limited schedule still has to go.
    pub open spec fn run_measure(self) -> int {
        match self.tasks {
            Some(g) => match g.max_rounds {
                Some(m) => (m + 1) * g.cycle_len() - g.pos(),
                None => 0,
            },
            None => 0,
        }
    }

    /// Runs for a fixed number of rounds, blocking until the schedule is
    /// exhausted, and hands back a duplicate of the best candidate found.
    /// The best fitness on record never decreases across the run, and the
    /// scheduler is cleared afterwards: no run is left active.
    pub fn run_for_rounds(&mut self, rounds: usize) -> (best: Candidate<S>)
        requires
            old(self).wf(),
        ensures
            final(self).wf(),
            final(self).setup_eq(*old(self)),
            final(self).tasks == None::<TaskGenerator>,
            final(self).working@.len() == old(self).working@.len(),
            final(self).best.fitness >= old(self).best.fitness,
            best.fitness == final(self).best.fitness,
            old(self).emitted@.is_prefix_of(final(self).emitted@),
            old(self).streaming is None ==> final(self).completed_rounds@ == Some(rounds),
    {
        self.start_tasks(Some(rounds));
        self.run_installed();
        self.clear_tasks();
        self.get()
    }
}

/// A round-limited scheduler that respects its limit sits within its
/// schedule: the measure of the distance left is never negative, and a
/// still-running one is strictly inside.
proof fn lemma_measure_shape(g: TaskGenerator)
    requires
        g.wf(),
        g.limit_ok(),
        g.max_rounds matches Some(_),
    ensures
        match g.max_rounds {
            Some(m) => (m + 1) * g.cycle_len() - g.pos() >= 1,
            None => true,
        },
        !g.stopped ==> (g.boundary() ==> g.round < usize::MAX),
{
    let m = match g.max_rounds {
        Some(m) => m as int,
        None => 0,
    };
    let c = g.cycle_len();
    assert(0 <= g.task_offset(g.next_task) < c);
    assert(g.round <= m);
    assert(g.round * c <= m * c) by (nonlinear_arith)
        requires
            g.round <= m,
            c >= 1,
    ;
    assert((m + 1) * c == m * c + c) by (nonlinear_arith);
}

/// Law: the fitness values published to a streaming sink are strictly
/// increasing — every published value beats everything published before it,
/// so a tie or a fall is never republished.
pub proof fn lemma_published_strictly_increasing<S: Solution>(s: Swarm<S>, i: int, j: int)
    requires
        s.wf(),
        0 <= i < j < s.emitted@.len(),
    ensures
        s.emitted@[i] < s.emitted@[j],
{
}


/// The fitness column of a snapshot, slot by slot.
fn fitness_vec<S: Solution>(snapshot: &Vec<Candidate<S>>) -> (fs: Vec<i64>)
    ensures
        fs@ == fitnesses_of(snapshot@),
{
    let n = snapshot.len();
    let mut fs: Vec<i64> = Vec::new();
    let mut i: usize = 0;
    while i < n
        invariant
            i <= n,
            n == snapshot@.len(),
            fs@.len() == i,
            forall|j: int| 0 <= j < i ==> fs@[j] == snapshot@[j].fitness,
        decreases n - i,
    {
        fs.push(snapshot[i].fitness);
        i = i + 1;
    }
    proof {
        assert(fs@ =~= fitnesses_of(snapshot@));
    }
    fs
}

/// The sum of a weight table, exactly.
fn sum_weights(weights: &Vec<u64>) -> (t: u128)
    ensures
        t as int == total_weight(weights@),
{
    let n = weights.len();
    let mut acc: u128 = 0;
    let mut i: usize = 0;
    while i < n
        invariant
            i <= n,
            n == weights@.len(),
            acc as int == prefix_weight(weights@, i as int),
        decreases n - i,
    {
        proof {
            crate::scaling::lemma_prefix_weight_bounds(weights@, i as int);
            assert((i as int) * (u64::MAX as int) <= 0xffff_ffff_ffff_ffff_0000_0000_0000_0000int)
                by (nonlinear_arith)
                requires
                    0 <= i as int <= 0xffff_ffff_ffff_ffffint,
            ;
        }
        acc = acc + weights[i] as u128;
        i = i + 1;
    }
    acc
}

} // verus!
