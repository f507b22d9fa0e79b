//! The dispatch worker: one due reminder is announced, and the dispatch is
//! recorded in the store.

use vstd::prelude::*;
use crate::object_id::ObjectId;
use crate::repository::{can_mark, marked, TaskRepository};
use crate::task::Task;

verus! {

/// What became of the write that records a dispatch.
#[derive(Clone, Copy, Debug, PartialEq, Eq, Structural)]
pub enum MarkResult {
    /// The reminder was unsent and is now recorded as sent.
    Changed,
    /// Nothing changed: the reminder was recorded as sent before, or the
    /// task or its reminder is gone.
    Unchanged,
    /// The store could not carry out the write.
    Failed,
}

/// What became of one dispatch.
#[derive(Clone, Copy, Debug, PartialEq, Eq, Structural)]
pub struct DispatchOutcome {
    /// The task whose reminder was dispatched.
    pub task_id: ObjectId,
    /// Whether the owner was notified.
    pub notified: bool,
    /// What became of the write that records the dispatch.
    pub marked: MarkResult,
}

impl DispatchOutcome {
    /// Whether the owner was notified and the store carried out the write.
    pub open spec fn is_success(self) -> bool {
        self.notified && self.marked != MarkResult::Failed
    }

    /// The outcome of a dispatch of `task_id` in which notifying succeeded or
    /// not, as `notified` says, and the write reported `written`: whether
    /// it changed anything, or `None` where the store could not carry it out.
    pub fn record(task_id: ObjectId, notified: bool, written: Option<bool>) -> (outcome:
        DispatchOutcome)
        ensures
            outcome == (DispatchOutcome {
                task_id,
                notified,
                marked: match written {
                    Some(true) => MarkResult::Changed,
                    Some(false) => MarkResult::Unchanged,
                    None => MarkResult::Failed,
                },
            }),
    {
        let marked: MarkResult = match written {
            Some(true) => MarkResult::Changed,
            Some(false) => MarkResult::Unchanged,
            None => MarkResult::Failed,
        };
        DispatchOutcome { task_id, notified, marked }
    }

    /// Whether the owner was notified and the store carried out the write.
    pub fn succeeded(&self) -> (success: bool)
        ensures
            success == self.is_success(),
    {
        self.notified && self.marked != MarkResult::Failed
    }
}

/// Dispatches the reminder of `task`: calls `notify` with the task and its
/// owner, then records the dispatch in `repository`, whether or not notifying
/// succeeded. A task without an identifier is passed over: `notify` is not
/// called, nothing is written, and `None` is returned.
pub fn process_notification<F: Fn(&Task, &ObjectId) -> bool>(
    repository: &mut TaskRepository,
    task: &Task,
    notify: &F,
) -> (outcome: Option<DispatchOutcome>)
    requires
        old(repository).wf(),
        notify.requires((task, &task.user_id)),
    ensures
        final(repository).wf(),
        match task.id {
            Some(id) => {
                &&& final(repository)@ == marked(old(repository)@, id)
                &&& outcome matches Some(o)
                &&& o.task_id == id
                &&& notify.ensures((task, &task.user_id), o.notified)
                &&& o.marked == if can_mark(old(repository)@, id) {
                    MarkResult::Changed
                } else {
                    MarkResult::Unchanged
                }
            },
            None => final(repository)@ == old(repository)@ && outcome.is_none(),
        },
{
    match task.id {
        Some(id) => {
            let notified: bool = notify(task, &task.user_id);
            let changed: bool = repository.mark_notification_as_sent(&id);
            Some(DispatchOutcome::record(id, notified, Some(changed)))
        },
        None => None,
    }
}

} // verus!
