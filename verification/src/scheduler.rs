//! The scheduler: scan cycles, one after the other, for as long as the
//! process lives.

use vstd::prelude::*;
use crate::clock::now_millis;
use crate::config::SchedulerConfig;
use crate::cycle::{candidates_of, fresh, finished, CycleOutcome, ScanCycle};
use crate::dispatch::process_notification;
use crate::gate::lemma_release_removes;
use crate::object_id::ObjectId;
use crate::repository::{
    distinct_ids,
    due_filter,
    due_unsent,
    holds_id,
    lemma_filter_distinct,
    lemma_filter_exact,
    lemma_front_distinct,
    TaskRepository,
};
use crate::task::Task;
use crate::window::{ScanWindow, MILLIS_PER_SECOND};

verus! {

/// How long to wait, in milliseconds, after a cycle that started at
/// `started` and was over at `now`: what is left of the interval, and nothing
/// where the cycle took as long as the interval or longer. A clock that went
/// backwards counts as no time gone by.
pub open spec fn delay_after(interval_seconds: u32, started: i64, now: i64) -> int {
    let interval = interval_seconds * MILLIS_PER_SECOND;
    let elapsed = if now > started {
        now - started
    } else {
        0
    };
    if elapsed >= interval {
        0
    } else {
        interval - elapsed
    }
}

/// The scheduler. It is always running: between two cycles, or in the middle
/// of one. Nothing that happens in a cycle stops it.
pub struct Scheduler {
    config: SchedulerConfig,
    running_since: Option<i64>,
}

impl Scheduler {
    /// The settings the scheduler was started with.
    pub closed spec fn spec_config(&self) -> SchedulerConfig {
        self.config
    }

    /// When the cycle under way started; `None` between two cycles.
    pub closed spec fn spec_running_since(&self) -> Option<i64> {
        self.running_since
    }

    /// What holds of every scheduler: its settings are usable.
    pub open spec fn wf(&self) -> bool {
        self.spec_config().wf()
    }

    /// The settings the scheduler was started with.
    pub fn config(&self) -> (config: SchedulerConfig)
        ensures
            config == self.spec_config(),
    {
        self.config
    }

    /// Whether a cycle is under way.
    pub fn in_cycle(&self) -> (under_way: bool)
        ensures
            under_way == self.spec_running_since().is_some(),
    {
        self.running_since.is_some()
    }

    /// Begins the cycle that scans the window which starts at `now`. The
    /// cycle depends on the settings and on `now` alone, whatever earlier
    /// cycles did. No two cycles overlap: where one is under way, none is
    /// begun and `None` returned.
    pub fn start_cycle(&mut self, now: i64) -> (cycle: Option<ScanCycle>)
        requires
            old(self).wf(),
        ensures
            final(self).wf(),
            final(self).spec_config() == old(self).spec_config(),
            cycle.is_some() <==> old(self).spec_running_since().is_none(),
            match cycle {
                Some(c) => {
                    &&& c.wf()
                    &&& c@ == fresh(
                        ScanWindow::spec_starting_at(now, old(self).spec_config().window_seconds),
                        old(self).spec_config().max_concurrent as nat,
                    )
                    &&& final(self).spec_running_since() == Some(now)
                },
                None => final(self).spec_running_since() == old(self).spec_running_since(),
            },
    {
        if self.running_since.is_some() {
            return None;
        }
        self.running_since = Some(now);
        Some(ScanCycle::begin(&self.config, now))
    }

    /// Begins a cycle at the current time, as `start_cycle` does at a given
    /// time.
    pub fn start_cycle_now(&mut self) -> (cycle: Option<ScanCycle>)
        requires
            old(self).wf(),
        ensures
            final(self).wf(),
            final(self).spec_config() == old(self).spec_config(),
            cycle.is_some() <==> old(self).spec_running_since().is_none(),
            match cycle {
                Some(c) => exists|now: i64|
                    {
                        &&& c.wf()
                        &&& #[trigger] ScanWindow::spec_starting_at(
                            now,
                            old(self).spec_config().window_seconds,
                        ) == c@.window
                        &&& c@ == fresh(c@.window, old(self).spec_config().max_concurrent as nat)
                        &&& final(self).spec_running_since() == Some(now)
                    },
                None => final(self).spec_running_since() == old(self).spec_running_since(),
            },
    {
        let now: i64 = now_millis();
        self.start_cycle(now)
    }

    /// Ends the cycle under way at the current time, as `finish_cycle` does
    /// at a given time.
    pub fn finish_cycle_now(&mut self, cycle: &ScanCycle) -> (wait: Option<u64>)
        requires
            old(self).wf(),
            cycle.wf(),
        ensures
            final(self).wf(),
            final(self).spec_config() == old(self).spec_config(),
            wait.is_some() <==> old(self).spec_running_since().is_some() && finished(cycle@),
            match wait {
                Some(millis) => {
                    &&& final(self).spec_running_since().is_none()
                    &&& exists|now: i64|
                        millis == #[trigger] delay_after(
                            old(self).spec_config().interval_seconds,
                            old(self).spec_running_since().unwrap(),
                            now,
                        )
                },
                None => final(self).spec_running_since() == old(self).spec_running_since(),
            },
    {
        let now: i64 = now_millis();
        self.finish_cycle(cycle, now)
    }

    /// Ends the cycle under way, at `now`, and returns how many milliseconds
    /// to wait before the next one. The wait depends on the interval and on
    /// the two times alone, not on what the cycle did. Nothing changes, and
    /// `None` is returned, where no cycle is under way or `cycle` is not
    /// over.
    pub fn finish_cycle(&mut self, cycle: &ScanCycle, now: i64) -> (wait: Option<u64>)
        requires
            old(self).wf(),
            cycle.wf(),
        ensures
            final(self).wf(),
            final(self).spec_config() == old(self).spec_config(),
            wait.is_some() <==> old(self).spec_running_since().is_some() && finished(cycle@),
            match wait {
                Some(millis) => {
                    &&& final(self).spec_running_since().is_none()
                    &&& millis == delay_after(
                        old(self).spec_config().interval_seconds,
                        old(self).spec_running_since().unwrap(),
                        now,
                    )
                },
                None => final(self).spec_running_since() == old(self).spec_running_since(),
            },
    {
        match self.running_since {
            Some(started) => {
                if !cycle.is_finished() {
                    return None;
                }
                self.running_since = None;
                let interval: u64 = (self.config.interval_seconds as u64) * 1000;
                if now <= started {
                    return Some(interval);
                }
                match now.checked_sub(started) {
                    Some(elapsed) => {
                        let elapsed: u64 = elapsed as u64;
                        if elapsed >= interval {
                            Some(0)
                        } else {
                            Some(interval - elapsed)
                        }
                    },
                    None => Some(0),
                }
            },
            None => None,
        }
    }
}

/// Starts the scheduler: it is between two cycles, about to begin its
/// first.
pub fn boot(config: SchedulerConfig) -> (scheduler: Scheduler)
    requires
        config.wf(),
    ensures
        scheduler.wf(),
        scheduler.spec_config() == config,
        scheduler.spec_running_since().is_none(),
{
    Scheduler { config, running_since: None }
}

/// The stored tasks after a cycle over `window` in which every dispatch was
/// recorded: each task that carried an unsent reminder due within the window
/// has it recorded as sent, and nothing else has changed.
pub open spec fn dispatched(tasks: Seq<Task>, window: ScanWindow) -> Seq<Task> {
    Seq::new(
        tasks.len(),
        |i: int|
            if tasks[i].is_due(window.lower, window.upper) {
                tasks[i].as_sent()
            } else {
                tasks[i]
            },
    )
}

/// What a whole cycle that starts at `now` makes of the stored tasks
/// `before`: the tasks `after` and the outcome `outcome`.
pub open spec fn scanned(
    before: Seq<Task>,
    config: SchedulerConfig,
    now: i64,
    after: Seq<Task>,
    outcome: CycleOutcome,
) -> bool {
    let window = ScanWindow::spec_starting_at(now, config.window_seconds);
    &&& after == dispatched(before, window)
    &&& outcome.candidates == due_unsent(before, window.lower, window.upper).len()
    &&& outcome.succeeded + outcome.failed == outcome.candidates
    &&& outcome.skipped == 0
    &&& !outcome.read_failed
}

/// The stored tasks in the middle of a cycle: the tasks whose identifier is
/// among `done` have their reminder recorded as sent.
spec fn partly_dispatched(tasks: Seq<Task>, done: Seq<Task>) -> Seq<Task> {
    Seq::new(
        tasks.len(),
        |i: int|
            if tasks[i].id.is_some() && holds_id(done, tasks[i].id.unwrap()) {
                tasks[i].as_sent()
            } else {
                tasks[i]
            },
    )
}

/// Tasks with distinct identifiers that can all be dispatched are all
/// accepted as candidates.
proof fn lemma_candidates_all(tasks: Seq<Task>, window: ScanWindow)
    requires
        distinct_ids(tasks),
        forall|i: int|
            0 <= i < tasks.len() ==> (#[trigger] tasks[i]).is_due(window.lower, window.upper),
    ensures
        candidates_of(tasks, window) == tasks,
    decreases tasks.len(),
{
    if tasks.len() > 0 {
        let front = tasks.drop_last();
        assert forall|i: int| 0 <= i < front.len() implies (#[trigger] front[i]).is_due(
            window.lower,
            window.upper,
        ) by {
            assert(front[i] == tasks[i]);
        }
        lemma_front_distinct(tasks);
        lemma_candidates_all(front, window);
        let last = tasks[tasks.len() - 1];
        assert(last.id.is_some());
        assert(!holds_id(front, last.id.unwrap())) by {
            assert forall|i: int| 0 <= i < front.len() implies (#[trigger] front[i]).id
                != last.id by {
                assert(front[i] == tasks[i]);
            }
        }
        assert(front.push(tasks.last()) =~= tasks);
    } else {
        assert(tasks =~= Seq::<Task>::empty());
    }
}

/// Once every candidate has been dispatched, exactly the tasks that were
/// due have their reminder recorded as sent.
proof fn lemma_all_dispatched(tasks: Seq<Task>, window: ScanWindow)
    requires
        distinct_ids(tasks),
    ensures
        partly_dispatched(tasks, due_unsent(tasks, window.lower, window.upper)) == dispatched(
            tasks,
            window,
        ),
{
    let keep = due_filter(window.lower, window.upper);
    let due = due_unsent(tasks, window.lower, window.upper);
    lemma_filter_exact(tasks, keep);
    assert forall|i: int| 0 <= i < tasks.len() implies holds_id(due, tasks[i].id.unwrap())
        == (#[trigger] tasks[i]).is_due(window.lower, window.upper) by {
        if tasks[i].is_due(window.lower, window.upper) {
            assert(keep(tasks[i]));
            assert(due.contains(tasks[i]));
            let j = choose|j: int| 0 <= j < due.len() && due[j] == tasks[i];
            assert(due[j].id == Some(tasks[i].id.unwrap()));
        }
        if holds_id(due, tasks[i].id.unwrap()) {
            let j = choose|j: int|
                0 <= j < due.len() && (#[trigger] due[j]).id == Some(tasks[i].id.unwrap());
            assert(keep(due[j]) && tasks.contains(due[j]));
            let m = choose|m: int| 0 <= m < tasks.len() && tasks[m] == due[j];
            assert(tasks[m].id == tasks[i].id);
            assert(m == i);
        }
    }
    assert(partly_dispatched(tasks, due) =~= dispatched(tasks, window));
}

/// Whether `notify` reports `result` whatever it is called with.
pub open spec fn always<F: Fn(&Task, &ObjectId) -> bool>(notify: &F, result: bool) -> bool {
    forall|task: &Task, owner: &ObjectId, reported: bool| #[trigger]
        notify.ensures((task, owner), reported) ==> reported == result
}

/// Runs the whole cycle that starts at `now` on `repository`: reads the
/// tasks with an unsent reminder due within the window, dispatches each of
/// them once, in the order of the read, and records each dispatch. `notify`
/// is called once for each of these tasks, with the task and its owner;
/// whether it succeeds or fails, the dispatch is recorded. A dispatch counts
/// as succeeded where `notify` succeeded, as failed where it failed.
pub fn scan_at<F: Fn(&Task, &ObjectId) -> bool>(
    repository: &mut TaskRepository,
    config: &SchedulerConfig,
    now: i64,
    notify: &F,
) -> (outcome: CycleOutcome)
    requires
        old(repository).wf(),
        config.wf(),
        forall|task: &Task, owner: &ObjectId| #[trigger] notify.requires((task, owner)),
    ensures
        final(repository).wf(),
        scanned(old(repository)@, *config, now, final(repository)@, outcome),
        always(notify, true) ==> outcome.failed == 0,
        always(notify, false) ==> outcome.succeeded == 0,
{
    let mut cycle: ScanCycle = ScanCycle::begin(config, now);
    let window: ScanWindow = cycle.window();
    let fetched: Vec<Task> = repository.get_all_not_sent_notifications(window.lower, window.upper);
    let ghost due = fetched@;
    proof {
        lemma_filter_distinct(repository@, due_filter(window.lower, window.upper));
        lemma_candidates_all(due, window);
    }
    let _first: bool = cycle.load(Some(fetched));
    proof {
        assert(partly_dispatched(repository@, due.take(0)) =~= repository@);
    }
    while !cycle.is_finished()
        invariant
            cycle.wf(),
            repository.wf(),
            cycle@.loaded,
            cycle@.under_way.len() == 0,
            cycle@.limit >= 1,
            cycle@.candidates == due,
            cycle@.outcome.candidates == due.len(),
            cycle@.outcome.skipped == 0,
            !cycle@.outcome.read_failed,
            always(notify, true) ==> cycle@.outcome.failed == 0,
            always(notify, false) ==> cycle@.outcome.succeeded == 0,
            distinct_ids(old(repository)@),
            repository@ == partly_dispatched(old(repository)@, due.take(cycle@.started as int)),
            forall|task: &Task, owner: &ObjectId| #[trigger] notify.requires((task, owner)),
        decreases due.len() - cycle@.started,
    {
        let ghost k = cycle@.started as int;
        let ghost middle = repository@;
        match cycle.next_dispatch() {
            Some(task) => {
                proof {
                    let id = task.id.unwrap();
                    assert(cycle@.under_way[0] == id);
                    assert(cycle@.under_way.contains(id));
                    lemma_release_removes(cycle@.under_way, id, 0);
                    assert(cycle@.under_way.remove(0).len() == 0);
                }
                match process_notification(repository, &task, notify) {
                    Some(result) => {
                        let _counted: bool = cycle.complete(&result);
                    },
                    None => {},
                }
                proof {
                    let id = task.id.unwrap();
                    let start = old(repository)@;
                    assert(due.take(k + 1) =~= due.take(k).push(due[k]));
                    assert forall|i: int| 0 <= i < start.len() implies holds_id(
                        due.take(k + 1),
                        (#[trigger] start[i]).id.unwrap(),
                    ) == (holds_id(due.take(k), start[i].id.unwrap()) || start[i].id == Some(
                        id,
                    )) by {
                        let wanted = start[i].id.unwrap();
                        if holds_id(due.take(k + 1), wanted) {
                            let j = choose|j: int|
                                0 <= j < due.take(k + 1).len() && (#[trigger] due.take(
                                    k + 1,
                                )[j]).id == Some(wanted);
                            if j < k {
                                assert(due.take(k)[j].id == Some(wanted));
                            }
                        }
                        if holds_id(due.take(k), wanted) {
                            let j = choose|j: int|
                                0 <= j < due.take(k).len() && (#[trigger] due.take(k)[j]).id
                                    == Some(wanted);
                            assert(due.take(k + 1)[j].id == Some(wanted));
                        }
                        if start[i].id == Some(id) {
                            assert(due.take(k + 1)[k].id == Some(wanted));
                        }
                    }
                    assert(repository@ =~= partly_dispatched(start, due.take(k + 1)));
                }
            },
            None => {},
        }
    }
    proof {
        assert(due.take(due.len() as int) =~= due);
        lemma_all_dispatched(old(repository)@, window);
    }
    cycle.outcome()
}

/// Runs the whole cycle that starts at the current time on `repository`, as
/// `scan_at` does for a given time.
pub fn check_and_send_notifications<F: Fn(&Task, &ObjectId) -> bool>(
    repository: &mut TaskRepository,
    config: &SchedulerConfig,
    notify: &F,
) -> (outcome: CycleOutcome)
    requires
        old(repository).wf(),
        config.wf(),
        forall|task: &Task, owner: &ObjectId| #[trigger] notify.requires((task, owner)),
    ensures
        final(repository).wf(),
        exists|now: i64| #[trigger]
            scanned(old(repository)@, *config, now, final(repository)@, outcome),
        always(notify, true) ==> outcome.failed == 0,
        always(notify, false) ==> outcome.succeeded == 0,
{
    let now: i64 = now_millis();
    scan_at(repository, config, now, notify)
}

} // verus!
