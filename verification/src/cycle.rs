//! One scan cycle, as a state machine.
//!
//! A cycle is driven from outside: the driver reads the candidates from the
//! store and hands them over, asks for the next task to dispatch as long as
//! the cycle has one to start, and reports each dispatch when it has
//! finished. The cycle decides which tasks are dispatched, how many at a
//! time, and when it is over; the driver does the reading, the notifying and
//! the writing.

use vstd::prelude::*;
use crate::config::SchedulerConfig;
use crate::dispatch::DispatchOutcome;
use crate::gate::{other_holder, released, DispatchGate};
use crate::object_id::ObjectId;
use crate::repository::{distinct_ids, holds_id};
use crate::task::Task;
use crate::window::ScanWindow;

verus! {

/// What one scan cycle did.
#[derive(Clone, Copy, Debug, PartialEq, Eq, Structural)]
pub struct CycleOutcome {
    /// Number of tasks accepted for dispatch.
    pub candidates: usize,
    /// Number of dispatches that succeeded.
    pub succeeded: usize,
    /// Number of dispatches that failed.
    pub failed: usize,
    /// Number of tasks that the read returned and the cycle passed over.
    pub skipped: usize,
    /// Whether the read of the candidates failed.
    pub read_failed: bool,
}

/// The state of a scan cycle.
pub struct ScanCycleView {
    /// The window that the cycle scans.
    pub window: ScanWindow,
    /// How many dispatches may be under way at once.
    pub limit: nat,
    /// The tasks whose dispatch is under way, in the order in which the
    /// dispatches started.
    pub under_way: Seq<ObjectId>,
    /// Whether the read of the candidates has been answered.
    pub loaded: bool,
    /// The tasks accepted for dispatch, in the order in which they are
    /// started.
    pub candidates: Seq<Task>,
    /// How many of the candidates have been started.
    pub started: nat,
    /// What the cycle has done so far.
    pub outcome: CycleOutcome,
}

/// Whether a task that the read returned can be dispatched: it has an
/// identifier and carries an unsent reminder due within the window.
pub open spec fn acceptable(task: Task, window: ScanWindow) -> bool {
    task.id.is_some() && task.is_due(window.lower, window.upper)
}

/// The candidates among the tasks that the read returned: those that can be
/// dispatched, each identifier once, in the order of the read.
pub open spec fn candidates_of(fetched: Seq<Task>, window: ScanWindow) -> Seq<Task>
    decreases fetched.len(),
{
    if fetched.len() == 0 {
        Seq::empty()
    } else {
        let front = candidates_of(fetched.drop_last(), window);
        let last = fetched.last();
        if acceptable(last, window) && !holds_id(front, last.id.unwrap()) {
            front.push(last)
        } else {
            front
        }
    }
}

/// The outcome of a cycle that has done nothing yet.
pub open spec fn no_outcome() -> CycleOutcome {
    CycleOutcome { candidates: 0, succeeded: 0, failed: 0, skipped: 0, read_failed: false }
}

/// The state in which a cycle over `window` with `limit` slots begins.
pub open spec fn fresh(window: ScanWindow, limit: nat) -> ScanCycleView {
    ScanCycleView {
        window,
        limit,
        under_way: Seq::empty(),
        loaded: false,
        candidates: Seq::empty(),
        started: 0,
        outcome: no_outcome(),
    }
}

/// The state after the read has been answered with `fetched`, or has failed
/// where `fetched` is `None`.
pub open spec fn loaded_with(before: ScanCycleView, fetched: Option<Seq<Task>>) -> ScanCycleView {
    let candidates = match fetched {
        Some(tasks) => candidates_of(tasks, before.window),
        None => Seq::empty(),
    };
    let returned = match fetched {
        Some(tasks) => tasks.len(),
        None => 0,
    };
    ScanCycleView {
        loaded: true,
        candidates,
        outcome: CycleOutcome {
            candidates: candidates.len() as usize,
            succeeded: 0,
            failed: 0,
            skipped: (returned - candidates.len()) as usize,
            read_failed: fetched.is_none(),
        },
        ..before
    }
}

/// Whether the cycle can start another dispatch: a candidate is waiting and a
/// slot is free.
pub open spec fn can_start(state: ScanCycleView) -> bool {
    state.loaded && state.started < state.candidates.len() && state.under_way.len() < state.limit
}

/// The state after the dispatch of the next candidate has started.
pub open spec fn after_start(before: ScanCycleView) -> ScanCycleView {
    ScanCycleView {
        started: before.started + 1,
        under_way: before.under_way.push(before.candidates[before.started as int].id.unwrap()),
        ..before
    }
}

/// The state after the dispatch of the task named in `outcome`, which was
/// under way, has finished with `outcome`.
pub open spec fn after_complete(before: ScanCycleView, outcome: DispatchOutcome) -> ScanCycleView {
    ScanCycleView {
        under_way: released(before.under_way, outcome.task_id),
        outcome: if outcome.is_success() {
            CycleOutcome {
                succeeded: (before.outcome.succeeded + 1) as usize,
                ..before.outcome
            }
        } else {
            CycleOutcome { failed: (before.outcome.failed + 1) as usize, ..before.outcome }
        },
        ..before
    }
}

/// Whether the cycle is over: the read has been answered, every candidate
/// has been started, and no dispatch is under way.
pub open spec fn finished(state: ScanCycleView) -> bool {
    state.loaded && state.started == state.candidates.len() && state.under_way.len() == 0
}

/// Whether `id` names one of the first `started` candidates.
pub open spec fn started_before(candidates: Seq<Task>, started: int, id: ObjectId) -> bool {
    exists|k: int|
        0 <= k < started && k < candidates.len() && (#[trigger] candidates[k]).id == Some(id)
}

/// What holds of every state of a cycle: among other things, that no more
/// dispatches are under way than the limit allows, and that every dispatch
/// under way is that of a candidate, each of another one.
pub open spec fn valid(state: ScanCycleView) -> bool {
    &&& 1 <= state.limit
    &&& state.under_way.len() <= state.limit
    &&& state.under_way.no_duplicates()
    &&& forall|j: int|
        0 <= j < state.under_way.len() ==> started_before(
            state.candidates,
            state.started as int,
            #[trigger] state.under_way[j],
        )
    &&& state.started <= state.candidates.len()
    &&& state.outcome.succeeded + state.outcome.failed + state.under_way.len() == state.started
    &&& state.outcome.candidates == state.candidates.len()
    &&& distinct_ids(state.candidates)
    &&& forall|i: int|
        0 <= i < state.candidates.len() ==> (#[trigger] state.candidates[i]).is_due(
            state.window.lower,
            state.window.upper,
        )
    &&& !state.loaded ==> state.candidates.len() == 0 && state.outcome == no_outcome()
    &&& state.outcome.read_failed ==> state.candidates.len() == 0
}

/// A scan cycle.
pub struct ScanCycle {
    window: ScanWindow,
    gate: DispatchGate,
    loaded: bool,
    queue: Vec<Task>,
    next: usize,
    outcome: CycleOutcome,
}

impl View for ScanCycle {
    type V = ScanCycleView;

    closed spec fn view(&self) -> ScanCycleView {
        ScanCycleView {
            window: self.window,
            limit: self.gate.spec_limit(),
            under_way: self.gate.spec_holders(),
            loaded: self.loaded,
            candidates: self.queue@,
            started: self.next as nat,
            outcome: self.outcome,
        }
    }
}

impl ScanCycle {
    /// What holds of every cycle.
    pub open spec fn wf(&self) -> bool {
        valid(self@)
    }

    /// A cycle that scans the window which starts at `now`.
    pub fn begin(config: &SchedulerConfig, now: i64) -> (cycle: ScanCycle)
        requires
            config.wf(),
        ensures
            cycle.wf(),
            cycle@ == fresh(
                ScanWindow::spec_starting_at(now, config.window_seconds),
                config.max_concurrent as nat,
            ),
    {
        let gate: DispatchGate = DispatchGate::new(config.max_concurrent).unwrap();
        ScanCycle {
            window: ScanWindow::starting_at(now, config.window_seconds),
            gate,
            loaded: false,
            queue: Vec::new(),
            next: 0,
            outcome: CycleOutcome {
                candidates: 0,
                succeeded: 0,
                failed: 0,
                skipped: 0,
                read_failed: false,
            },
        }
    }

    /// The window that the cycle scans.
    pub fn window(&self) -> (window: ScanWindow)
        ensures
            window == self@.window,
    {
        self.window
    }

    /// How many dispatches may be under way at once.
    pub fn limit(&self) -> (limit: usize)
        ensures
            limit == self@.limit,
    {
        self.gate.limit()
    }

    /// How many dispatches are under way: never more than the limit.
    pub fn active(&self) -> (active: usize)
        requires
            self.wf(),
        ensures
            active == self@.under_way.len(),
            active <= self@.limit,
    {
        self.gate.active()
    }

    /// What the cycle has done so far.
    pub fn outcome(&self) -> (outcome: CycleOutcome)
        ensures
            outcome == self@.outcome,
    {
        self.outcome
    }

    /// Whether the cycle is over.
    pub fn is_finished(&self) -> (over: bool)
        requires
            self.wf(),
        ensures
            over == finished(self@),
    {
        self.loaded && self.next == self.queue.len() && self.gate.active() == 0
    }

    /// Whether a candidate stands under `id`.
    fn queued(&self, id: &ObjectId) -> (held: bool)
        ensures
            held == holds_id(self.queue@, *id),
    {
        let mut i: usize = 0;
        while i < self.queue.len()
            invariant
                i <= self.queue.len(),
                forall|j: int| 0 <= j < i ==> (#[trigger] self.queue@[j]).id != Some(*id),
            decreases self.queue.len() - i,
        {
            if self.queue[i].id == Some(*id) {
                return true;
            }
            i += 1;
        }
        false
    }

    /// Hands the cycle the answer to the read of the candidates: the tasks
    /// that the store returned, or `None` where the read failed. A failed
    /// read counts as a read that returned nothing. Of the tasks returned the
    /// cycle accepts those that have an identifier and an unsent reminder
    /// due within the window, each identifier once, and passes over the rest.
    /// Only the first answer counts: the result tells whether this was it.
    pub fn load(&mut self, fetched: Option<Vec<Task>>) -> (accepted: bool)
        requires
            old(self).wf(),
        ensures
            final(self).wf(),
            accepted == !old(self)@.loaded,
            final(self)@ == if accepted {
                loaded_with(
                    old(self)@,
                    match fetched {
                        Some(tasks) => Some(tasks@),
                        None => None,
                    },
                )
            } else {
                old(self)@
            },
    {
        if self.loaded {
            return false;
        }
        self.loaded = true;
        match fetched {
            Some(tasks) => {
                let mut i: usize = 0;
                while i < tasks.len()
                    invariant
                        i <= tasks.len(),
                        self.queue@ == candidates_of(tasks@.take(i as int), self.window),
                        self.queue@.len() <= i,
                        distinct_ids(self.queue@),
                        forall|j: int|
                            0 <= j < self.queue@.len() ==> (#[trigger] self.queue@[j]).is_due(
                                self.window.lower,
                                self.window.upper,
                            ),
                        self.window == old(self).window,
                        self.gate == old(self).gate,
                        self.next == old(self).next,
                        self.outcome == old(self).outcome,
                        self.loaded,
                    decreases tasks.len() - i,
                {
                    proof {
                        assert(tasks@.take(i + 1).drop_last() =~= tasks@.take(i as int));
                    }
                    let acceptable: bool = match tasks[i].id {
                        Some(id) => tasks[i].due_within(self.window.lower, self.window.upper)
                            && !self.queued(&id),
                        None => false,
                    };
                    if acceptable {
                        self.queue.push(tasks[i].clone());
                    }
                    i += 1;
                }
                proof {
                    assert(tasks@.take(i as int) =~= tasks@);
                }
                self.outcome =
                CycleOutcome {
                    candidates: self.queue.len(),
                    succeeded: 0,
                    failed: 0,
                    skipped: tasks.len() - self.queue.len(),
                    read_failed: false,
                };
            },
            None => {
                self.outcome =
                CycleOutcome {
                    candidates: 0,
                    succeeded: 0,
                    failed: 0,
                    skipped: 0,
                    read_failed: true,
                };
                proof {
                    assert(self.queue@ =~= Seq::<Task>::empty());
                }
            },
        }
        true
    }

    /// Starts the next dispatch where a candidate is waiting and a slot is
    /// free, and returns the task to dispatch; `None` where the cycle starts
    /// none now.
    pub fn next_dispatch(&mut self) -> (task: Option<Task>)
        requires
            old(self).wf(),
        ensures
            final(self).wf(),
            task.is_some() <==> can_start(old(self)@),
            match task {
                Some(t) => {
                    &&& t == old(self)@.candidates[old(self)@.started as int]
                    &&& final(self)@ == after_start(old(self)@)
                },
                None => final(self)@ == old(self)@,
            },
    {
        if !self.loaded || self.next >= self.queue.len() {
            return None;
        }
        let task: Task = self.queue[self.next].clone();
        let id: ObjectId = match task.id {
            Some(id) => id,
            None => {
                return None;
            },
        };
        proof {
            let state = self@;
            if state.under_way.contains(id) {
                let j = choose|j: int| 0 <= j < state.under_way.len() && state.under_way[j] == id;
                assert(started_before(state.candidates, state.started as int, state.under_way[j]));
                let k = choose|k: int|
                    0 <= k < state.started && (#[trigger] state.candidates[k]).id == Some(id);
                assert(state.candidates[k].id != state.candidates[state.started as int].id);
            }
        }
        if self.gate.try_acquire(id) {
            self.next = self.next + 1;
            proof {
                let before = old(self)@;
                let after = self@;
                assert forall|j: int| 0 <= j < after.under_way.len() implies started_before(
                    after.candidates,
                    after.started as int,
                    #[trigger] after.under_way[j],
                ) by {
                    if j < before.under_way.len() {
                        assert(started_before(
                            before.candidates,
                            before.started as int,
                            before.under_way[j],
                        ));
                        let k = choose|k: int|
                            0 <= k < before.started && k < before.candidates.len() && (
                            #[trigger] before.candidates[k]).id == Some(before.under_way[j]);
                        assert(after.candidates[k].id == Some(after.under_way[j]));
                    } else {
                        assert(after.candidates[before.started as int].id == Some(
                            after.under_way[j],
                        ));
                    }
                }
            }
            Some(task)
        } else {
            None
        }
    }

    /// Reports that the dispatch of the task named in `outcome` has
    /// finished with `outcome`: its slot becomes free and the outcome is
    /// counted. Returns `false`, and changes nothing, where no dispatch of
    /// that task is under way.
    pub fn complete(&mut self, outcome: &DispatchOutcome) -> (accepted: bool)
        requires
            old(self).wf(),
        ensures
            final(self).wf(),
            accepted == old(self)@.under_way.contains(outcome.task_id),
            final(self)@ == if accepted {
                after_complete(old(self)@, *outcome)
            } else {
                old(self)@
            },
    {
        if !self.gate.release(&outcome.task_id) {
            return false;
        }
        if outcome.succeeded() {
            self.outcome.succeeded = self.outcome.succeeded + 1;
        } else {
            self.outcome.failed = self.outcome.failed + 1;
        }
        proof {
            let before = old(self)@;
            let after = self@;
            assert forall|j: int| 0 <= j < after.under_way.len() implies started_before(
                after.candidates,
                after.started as int,
                #[trigger] after.under_way[j],
            ) by {
                assert(after.under_way.contains(after.under_way[j]));
                before.under_way.lemma_filter_contains_rev(
                    other_holder(outcome.task_id),
                    after.under_way[j],
                );
                let m = choose|m: int|
                    0 <= m < before.under_way.len() && before.under_way[m] == after.under_way[j];
                assert(started_before(
                    before.candidates,
                    before.started as int,
                    before.under_way[m],
                ));
            }
        }
        true
    }
}

} // verus!
