//! What holds of the store and of the scan cycle, whatever the tasks.

use vstd::prelude::*;
use crate::cycle::{
    acceptable,
    after_complete,
    after_start,
    can_start,
    candidates_of,
    finished,
    fresh,
    loaded_with,
    started_before,
    valid,
    ScanCycleView,
};
use crate::dispatch::DispatchOutcome;
use crate::gate::{lemma_release_removes, other_holder, released};
use crate::object_id::ObjectId;
use crate::repository::{
    can_mark,
    distinct_ids,
    due_filter,
    due_unsent,
    holds_id,
    lemma_filter_exact,
    marked,
};
use crate::scheduler::dispatched;
use crate::task::Task;
use crate::window::ScanWindow;

verus! {

/// Recording a dispatch keeps every task under its identifier.
pub proof fn lemma_marked_keeps_ids(tasks: Seq<Task>, id: ObjectId)
    requires
        distinct_ids(tasks),
    ensures
        distinct_ids(marked(tasks, id)),
        forall|other: ObjectId| holds_id(marked(tasks, id), other) == holds_id(tasks, other),
{
    let after = marked(tasks, id);
    assert forall|i: int| 0 <= i < after.len() implies (#[trigger] after[i]).id
        == tasks[i].id by {}
    assert forall|i: int, j: int| 0 <= i < j < after.len() implies (#[trigger] after[i]).id != (
    #[trigger] after[j]).id by {
        assert(tasks[i].id != tasks[j].id);
    }
    assert forall|other: ObjectId| holds_id(after, other) == holds_id(tasks, other) by {
        if holds_id(after, other) {
            let i = choose|i: int| 0 <= i < after.len() && (#[trigger] after[i]).id == Some(other);
            assert(tasks[i].id == Some(other));
        }
        if holds_id(tasks, other) {
            let i = choose|i: int| 0 <= i < tasks.len() && (#[trigger] tasks[i]).id == Some(other);
            assert(after[i].id == Some(other));
        }
    }
}

/// Recording the dispatch of one task twice leaves the tasks as recording it
/// once does: the task's reminder is recorded as sent after the first time
/// and after the second, and the second time changes nothing and says so.
pub proof fn lemma_mark_sent_idempotent(tasks: Seq<Task>, id: ObjectId)
    ensures
        marked(marked(tasks, id), id) == marked(tasks, id),
        !can_mark(marked(tasks, id), id),
        forall|i: int|
            0 <= i < tasks.len() && (#[trigger] tasks[i]).id == Some(id)
                && tasks[i].notification.is_some() ==> marked(
                tasks,
                id,
            )[i].notification.unwrap().sent,
{
    let once = marked(tasks, id);
    assert(marked(once, id) =~= once);
    assert forall|i: int| 0 <= i < once.len() && (#[trigger] once[i]).id == Some(
        id,
    ) implies !once[i].is_unsent() by {
        assert(once[i] == tasks[i].as_sent());
    }
}

/// The scheduler's writes set the `sent` flag of a reminder and change
/// nothing else: a task is after the write what it was before, or what it was
/// before with its reminder recorded as sent. A reminder that was recorded as
/// sent stays so.
pub proof fn lemma_writes_only_set_sent(
    tasks: Seq<Task>,
    id: ObjectId,
    window: ScanWindow,
    i: int,
)
    requires
        0 <= i < tasks.len(),
    ensures
        marked(tasks, id)[i] == tasks[i] || marked(tasks, id)[i] == tasks[i].as_sent(),
        dispatched(tasks, window)[i] == tasks[i] || dispatched(tasks, window)[i]
            == tasks[i].as_sent(),
        !tasks[i].is_unsent() ==> marked(tasks, id)[i] == tasks[i] && dispatched(tasks, window)[i]
            == tasks[i],
        tasks[i].as_sent().id == tasks[i].id,
        !tasks[i].as_sent().is_unsent(),
{
    match tasks[i].notification {
        Some(n) => {
            if n.sent {
                assert(n.as_sent() == n);
            }
        },
        None => {},
    }
}

/// A scan returns exactly the stored tasks that carry an unsent reminder
/// whose due time lies within the window, both ends included.
pub proof fn lemma_scan_exact(tasks: Seq<Task>, lower: i64, upper: i64, task: Task)
    ensures
        due_unsent(tasks, lower, upper).contains(task) <==> tasks.contains(task) && task.is_due(
            lower,
            upper,
        ),
{
    let keep = due_filter(lower, upper);
    let found = due_unsent(tasks, lower, upper);
    lemma_filter_exact(tasks, keep);
    if found.contains(task) {
        let i = choose|i: int| 0 <= i < found.len() && found[i] == task;
        assert(keep(found[i]) && tasks.contains(found[i]));
    }
    if tasks.contains(task) && task.is_due(lower, upper) {
        let i = choose|i: int| 0 <= i < tasks.len() && tasks[i] == task;
        assert(keep(tasks[i]));
    }
}

/// A task whose reminder is recorded as sent is returned by no scan,
/// wherever its due time lies.
pub proof fn lemma_sent_never_returned(tasks: Seq<Task>, lower: i64, upper: i64, task: Task)
    requires
        task.notification matches Some(n) && n.sent,
    ensures
        !due_unsent(tasks, lower, upper).contains(task),
{
    lemma_scan_exact(tasks, lower, upper, task);
}

/// Once the dispatch of a task has been recorded, no scan returns that task
/// again, over whatever window.
pub proof fn lemma_marked_never_returned(
    tasks: Seq<Task>,
    id: ObjectId,
    lower: i64,
    upper: i64,
    task: Task,
)
    requires
        due_unsent(marked(tasks, id), lower, upper).contains(task),
    ensures
        task.id != Some(id),
{
    let after = marked(tasks, id);
    lemma_scan_exact(after, lower, upper, task);
    let i = choose|i: int| 0 <= i < after.len() && after[i] == task;
    if tasks[i].id == Some(id) {
        assert(after[i] == tasks[i].as_sent());
    }
}

/// Two cycles, one after the other, with nothing else changing the tasks in
/// between, never dispatch the same task twice: no task that the second
/// cycle reads was read by the first.
pub proof fn lemma_no_second_dispatch(
    tasks: Seq<Task>,
    first: ScanWindow,
    second: ScanWindow,
    task: Task,
)
    requires
        distinct_ids(tasks),
        due_unsent(dispatched(tasks, first), second.lower, second.upper).contains(task),
    ensures
        task.id.is_some(),
        !holds_id(due_unsent(tasks, first.lower, first.upper), task.id.unwrap()),
{
    let between = dispatched(tasks, first);
    let earlier = due_unsent(tasks, first.lower, first.upper);
    lemma_scan_exact(between, second.lower, second.upper, task);
    let m = choose|m: int| 0 <= m < between.len() && between[m] == task;
    assert(tasks[m].id.is_some());
    if tasks[m].is_due(first.lower, first.upper) {
        assert(between[m] == tasks[m].as_sent());
    }
    assert(task == tasks[m]);
    if holds_id(earlier, task.id.unwrap()) {
        let j = choose|j: int|
            0 <= j < earlier.len() && (#[trigger] earlier[j]).id == Some(task.id.unwrap());
        assert(earlier.contains(earlier[j]));
        lemma_scan_exact(tasks, first.lower, first.upper, earlier[j]);
        let n = choose|n: int| 0 <= n < tasks.len() && tasks[n] == earlier[j];
        assert(tasks[n].id == tasks[m].id);
        assert(n == m);
    }
}

/// The candidates of a cycle have distinct identifiers, can all be
/// dispatched, and are no more than the read returned.
pub proof fn lemma_candidates_valid(fetched: Seq<Task>, window: ScanWindow)
    ensures
        distinct_ids(candidates_of(fetched, window)),
        candidates_of(fetched, window).len() <= fetched.len(),
        forall|i: int|
            0 <= i < candidates_of(fetched, window).len() ==> acceptable(
                #[trigger] candidates_of(fetched, window)[i],
                window,
            ) && fetched.contains(candidates_of(fetched, window)[i]),
    decreases fetched.len(),
{
    if fetched.len() > 0 {
        let front = fetched.drop_last();
        lemma_candidates_valid(front, window);
        let before = candidates_of(front, window);
        let chosen = candidates_of(fetched, window);
        assert forall|i: int| 0 <= i < chosen.len() implies acceptable(
            #[trigger] chosen[i],
            window,
        ) && fetched.contains(chosen[i]) by {
            if i < before.len() {
                assert(chosen[i] == before[i]);
                let j = choose|j: int| 0 <= j < front.len() && front[j] == before[i];
                assert(fetched[j] == chosen[i]);
            } else {
                assert(chosen[i] == fetched[fetched.len() - 1]);
            }
        }
        assert forall|i: int, j: int| 0 <= i < j < chosen.len() implies (#[trigger] chosen[i]).id
            != (#[trigger] chosen[j]).id by {
            assert(chosen[i] == before[i]);
            if j < before.len() {
                assert(chosen[j] == before[j]);
            }
        }
    }
}

/// Never are more dispatches under way than the limit allows: that holds
/// when a cycle begins, and every step of a cycle keeps it.
pub proof fn lemma_bounded_concurrency(
    state: ScanCycleView,
    fetched: Option<Seq<Task>>,
    outcome: DispatchOutcome,
)
    requires
        valid(state),
        fetched matches Some(tasks) ==> tasks.len() <= usize::MAX,
    ensures
        state.under_way.len() <= state.limit,
        valid(fresh(state.window, state.limit)),
        !state.loaded ==> valid(loaded_with(state, fetched)),
        can_start(state) ==> valid(after_start(state)),
        state.under_way.contains(outcome.task_id) ==> valid(after_complete(state, outcome)),
{
    if !state.loaded {
        match fetched {
            Some(tasks) => {
                lemma_candidates_valid(tasks, state.window);
            },
            None => {},
        }
    }
    if can_start(state) {
        let after = after_start(state);
        let next = state.candidates[state.started as int].id.unwrap();
        assert forall|j: int| 0 <= j < state.under_way.len() implies state.under_way[j]
            != next by {
            assert(started_before(state.candidates, state.started as int, state.under_way[j]));
            let k = choose|k: int|
                0 <= k < state.started && k < state.candidates.len() && (
                #[trigger] state.candidates[k]).id == Some(state.under_way[j]);
            assert(state.candidates[k].id != state.candidates[state.started as int].id);
        }
        assert forall|j: int| 0 <= j < after.under_way.len() implies started_before(
            after.candidates,
            after.started as int,
            #[trigger] after.under_way[j],
        ) by {
            if j < state.under_way.len() {
                assert(started_before(state.candidates, state.started as int, state.under_way[j]));
                let k = choose|k: int|
                    0 <= k < state.started && k < state.candidates.len() && (
                    #[trigger] state.candidates[k]).id == Some(state.under_way[j]);
                assert(after.candidates[k].id == Some(after.under_way[j]));
            } else {
                assert(after.candidates[state.started as int].id == Some(after.under_way[j]));
            }
        }
    }
    if state.under_way.contains(outcome.task_id) {
        let after = after_complete(state, outcome);
        let at = choose|at: int|
            0 <= at < state.under_way.len() && state.under_way[at] == outcome.task_id;
        lemma_release_removes(state.under_way, outcome.task_id, at);
        assert(after.under_way == released(state.under_way, outcome.task_id));
        assert forall|j: int| 0 <= j < after.under_way.len() implies started_before(
            after.candidates,
            after.started as int,
            #[trigger] after.under_way[j],
        ) by {
            assert(after.under_way.contains(after.under_way[j]));
            state.under_way.lemma_filter_contains_rev(
                other_holder(outcome.task_id),
                after.under_way[j],
            );
            let m = choose|m: int|
                0 <= m < state.under_way.len() && state.under_way[m] == after.under_way[j];
            assert(started_before(state.candidates, state.started as int, state.under_way[m]));
        }
    }
}

/// A cycle whose read fails dispatches nothing and is over at once.
pub proof fn lemma_failed_read_ends_cycle(window: ScanWindow, limit: nat)
    requires
        limit >= 1,
    ensures
        valid(loaded_with(fresh(window, limit), None)),
        finished(loaded_with(fresh(window, limit), None)),
        !can_start(loaded_with(fresh(window, limit), None)),
        loaded_with(fresh(window, limit), None).outcome.candidates == 0,
        loaded_with(fresh(window, limit), None).outcome.read_failed,
{
}

} // verus!
