//! The task scheduler: a stateful source of work tokens, cycling through all
//! worker indices and all observer indices before advancing the round
//! counter, with an optional round limit and an external stop flag.

use vstd::prelude::*;

verus! {

/// Token naming which role acts next: a worker refines its own slot, an
/// observer refines a slot chosen by weighted selection (its index only
/// drives the cycle and is disregarded at execution).
#[derive(Clone, Copy, Debug, PartialEq, Eq, Structural)]
pub enum Task {
    Worker(usize),
    Observer(usize),
}

/// Round-robin token source. The emitted sequence strictly cycles
/// `Worker(0..workers)` and `Observer(0..observers)`; leaving the last token
/// of a cycle advances `round`, and the source exhausts once it is stopped or
/// once `round` reaches the configured limit.
pub struct TaskGenerator {
    pub workers: usize,
    pub observers: usize,
    pub next_task: Task,
    pub max_rounds: Option<usize>,
    pub stopped: bool,
    /// Completed rounds so far. Starts at 0 and increments exactly once each
    /// time the last token of a cycle has been handed out.
    pub round: usize,
}

/// The token that position `k` of the unbounded schedule holds: positions
/// cycle through all workers, and on through all observers.
pub open spec fn cycle_task(workers: int, observers: int, k: int) -> Task
    recommends
        workers >= 1,
        observers >= 0,
        k >= 0,
{
    let p = k % (workers + observers);
    if p < workers {
        Task::Worker(p as usize)
    } else {
        Task::Observer((p - workers) as usize)
    }
}

impl TaskGenerator {
    /// A generator is coherent when it has a worker at all and its pending
    /// token names an existing index.
    pub open spec fn wf(self) -> bool {
        &&& self.workers >= 1
        &&& match self.next_task {
            Task::Worker(i) => i < self.workers,
            Task::Observer(j) => j < self.observers,
        }
    }

    pub open spec fn cycle_len(self) -> int {
        self.workers + self.observers
    }

    /// Position of a token within one cycle: workers first, observers after.
    pub open spec fn task_offset(self, t: Task) -> int {
        match t {
            Task::Worker(i) => i as int,
            Task::Observer(j) => self.workers + j,
        }
    }

    /// Absolute position in the schedule: completed rounds plus the offset of
    /// the pending token.
    pub open spec fn pos(self) -> int {
        self.round * self.cycle_len() + self.task_offset(self.next_task)
    }

    /// The pending token is the last one of its cycle.
    pub open spec fn boundary(self) -> bool {
        self.task_offset(self.next_task) == self.cycle_len() - 1
    }

    /// The pending token's successor within the same cycle.
    pub open spec fn succ_task(self) -> Task {
        match self.next_task {
            Task::Worker(i) => if i + 1 < self.workers {
                Task::Worker((i + 1) as usize)
            } else {
                Task::Observer(0usize)
            },
            Task::Observer(j) => Task::Observer((j + 1) as usize),
        }
    }

    /// The configured round limit has been met.
    pub open spec fn limit_reached(self) -> bool {
        match self.max_rounds {
            Some(m) => self.round >= m,
            None => false,
        }
    }

    /// With a round limit configured, the counter never strays past it, and a
    /// still-running generator is strictly below it.
    pub open spec fn limit_ok(self) -> bool {
        match self.max_rounds {
            Some(m) => if self.stopped {
                self.round <= m
            } else {
                self.round < m
            },
            None => true,
        }
    }

    /// The state a generator has right after construction, with any round
    /// limit already accounted for.
    pub open spec fn is_fresh(self) -> bool {
        &&& self.wf()
        &&& self.round == 0
        &&& self.next_task == Task::Worker(0usize)
        &&& (self.stopped <==> self.limit_reached())
    }

    /// The configured round limit, as a number.
    pub open spec fn limit_of(self) -> int {
        match self.max_rounds {
            Some(m) => m as int,
            None => 0,
        }
    }

    /// The transition one emission makes: `self` is the state right after a
    /// still-running generator in state `pre` handed out its pending token.
    /// The configuration is kept; the round counter never decreases, and it
    /// increments exactly once per completed cycle — when the emitted token
    /// was the last of its cycle, also with no observers configured.
    pub open spec fn advanced_from(self, pre: TaskGenerator) -> bool {
        &&& self.workers == pre.workers
        &&& self.observers == pre.observers
        &&& self.max_rounds == pre.max_rounds
        &&& self.round >= pre.round
        &&& (!pre.boundary() ==> {
            &&& self.round == pre.round
            &&& self.stopped == pre.stopped
            &&& self.next_task == pre.succ_task()
        })
        &&& (pre.boundary() && pre.round < usize::MAX ==> {
            &&& self.round == pre.round + 1
            &&& self.next_task == Task::Worker(0usize)
            &&& (self.stopped <==> self.limit_reached())
        })
        &&& (pre.boundary() && pre.round == usize::MAX ==> {
            &&& self.round == pre.round
            &&& self.next_task == Task::Worker(0usize)
            &&& self.stopped
        })
        &&& ((pre.boundary() ==> pre.round < usize::MAX) ==> self.pos() == pre.pos() + 1)
        &&& (pre.limit_ok() ==> self.limit_ok())
    }

    pub fn new(workers: usize, observers: usize) -> (g: TaskGenerator)
        requires
            workers >= 1,
        ensures
            g.wf(),
            g.is_fresh(),
            g.workers == workers,
            g.observers == observers,
            g.round == 0,
            g.max_rounds == None::<usize>,
            g.next_task == Task::Worker(0usize),
            !g.stopped,
    {
        TaskGenerator {
            workers,
            observers,
            round: 0,
            max_rounds: None,
            next_task: Task::Worker(0),
            stopped: false,
        }
    }

    /// Configures a round limit. A limit the round counter already meets
    /// exhausts the generator at once, so a limit of zero emits nothing.
    pub fn max_rounds(self, limit: usize) -> (g: TaskGenerator)
        ensures
            g == (TaskGenerator {
                max_rounds: Some(limit),
                stopped: self.stopped || self.round >= limit,
                ..self
            }),
            g.limit_ok() || self.round > limit,
    {
        let stopped = self.stopped || self.round >= limit;
        TaskGenerator { max_rounds: Some(limit), stopped, ..self }
    }

    /// Requests exhaustion: no further token is emitted.
    pub fn stop(&mut self)
        ensures
            *final(self) == (TaskGenerator { stopped: true, ..*old(self) }),
    {
        self.stopped = true;
    }

    /// Hands out the pending token and advances, or reports exhaustion.
    ///
    /// The round counter never decreases, and it increments exactly once per
    /// completed cycle: only when the emitted token was the last of its
    /// cycle. An emitted token always names an existing index, so with no
    /// observers configured every token is a worker token and the round still
    /// advances at the end of each worker sweep.
    pub fn next(&mut self) -> (t: Option<Task>)
        requires
            old(self).wf(),
        ensures
            final(self).wf(),
            old(self).stopped ==> t == None::<Task> && *final(self) == *old(self),
            !old(self).stopped ==> t == Some(old(self).next_task) && final(self).advanced_from(
                *old(self),
            ),
    {
        if self.stopped {
            return None;
        }
        let current = self.next_task;
        let at_boundary = match self.next_task {
            Task::Worker(i) => i + 1 == self.workers && self.observers == 0,
            Task::Observer(j) => j + 1 == self.observers,
        };
        if at_boundary {
            self.next_task = Task::Worker(0);
            if self.round == usize::MAX {
                self.stopped = true;
            } else {
                self.round = self.round + 1;
                match self.max_rounds {
                    Some(m) => {
                        if self.round >= m {
                            self.stopped = true;
                        }
                    },
                    None => {},
                }
            }
            proof {
                let g0 = *old(self);
                let c = g0.cycle_len();
                if g0.round < usize::MAX {
                    assert((g0.round + 1) * c == g0.round * c + c) by (nonlinear_arith);
                }
            }
        } else {
            self.next_task = match self.next_task {
                Task::Worker(i) => if i + 1 < self.workers {
                    Task::Worker(i + 1)
                } else {
                    Task::Observer(0)
                },
                Task::Observer(j) => Task::Observer(j + 1),
            };
        }
        Some(current)
    }

    /// Drains a freshly built, round-limited generator. The result is the
    /// whole schedule: exactly `limit * (workers + observers)` tokens, the
    /// token at each position `k` being `cycle_task` of `k` — all worker
    /// indices in order, all observer indices in order, repeated `limit`
    /// times.
    pub fn collect_all(self) -> (v: Vec<Task>)
        requires
            self.is_fresh(),
            self.max_rounds matches Some(_),
        ensures
            v@.len() == self.limit_of() * self.cycle_len(),
            forall|k: int| 0 <= k < v@.len()
                ==> v@[k] == cycle_task(self.workers as int, self.observers as int, k),
    {
        let mut g = self;
        let mut v: Vec<Task> = Vec::new();
        loop
            invariant
                g.wf(),
                g.limit_ok(),
                g.workers == self.workers,
                g.observers == self.observers,
                g.max_rounds == self.max_rounds,
                self.max_rounds matches Some(_),
                g.stopped ==> g.round == self.limit_of() && g.next_task == Task::Worker(0usize),
                v@.len() == g.pos(),
                forall|k: int| 0 <= k < v@.len()
                    ==> v@[k] == cycle_task(self.workers as int, self.observers as int, k),
            decreases self.limit_of() * g.cycle_len() - g.pos(),
        {
            proof {
                lemma_pos_in_bounds(g, self.limit_of());
            }
            let ghost g_pre = g;
            let t = g.next();
            match t {
                Some(tok) => {
                    proof {
                        lemma_emitted_token_is_cycle_task(g_pre, tok, v@.len() as int);
                    }
                    v.push(tok);
                },
                None => {
                    proof {
                        assert(g.pos() == self.limit_of() * g.cycle_len()) by (nonlinear_arith)
                            requires
                                g.round == self.limit_of(),
                                g.task_offset(g.next_task) == 0,
                                g.pos() == g.round * g.cycle_len() + g.task_offset(g.next_task),
                        ;
                    }
                    return v;
                },
            }
        }
    }
}

/// A still-running generator that respects its limit sits strictly before the
/// end of the schedule, and a stopped one sits exactly at it.
proof fn lemma_pos_in_bounds(g: TaskGenerator, limit: int)
    requires
        g.wf(),
        g.limit_ok(),
        g.max_rounds matches Some(m) && m == limit,
        g.stopped ==> g.round == limit && g.next_task == Task::Worker(0usize),
    ensures
        !g.stopped ==> g.pos() < limit * g.cycle_len(),
        !g.stopped ==> (g.boundary() ==> g.round < usize::MAX),
        g.stopped ==> g.pos() == limit * g.cycle_len(),
{
    let c = g.cycle_len();
    assert(0 <= g.task_offset(g.next_task) < c);
    if !g.stopped {
        assert(g.round < limit);
        assert(g.round * c + c <= limit * c) by (nonlinear_arith)
            requires
                g.round < limit,
                c >= 1,
        ;
    }
}

/// What a coherent generator emits at its current position is exactly the
/// schedule's token for that position.
proof fn lemma_emitted_token_is_cycle_task(g0: TaskGenerator, tok: Task, k: int)
    requires
        g0.wf(),
        tok == g0.next_task,
        k == g0.pos(),
    ensures
        tok == cycle_task(g0.workers as int, g0.observers as int, k),
{
    let c = g0.cycle_len();
    let off = g0.task_offset(g0.next_task);
    assert(0 <= off < c);
    assert((g0.round * c + off) % c == off) by (nonlinear_arith)
        requires
            0 <= off < c,
    ;
}

} // verus!
