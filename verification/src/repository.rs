//! The task store: the tasks of all users, each under its own identifier.
//!
//! `TaskRepository` keeps the tasks in memory. It answers the two requests
//! the scheduler depends on, the read of the reminders that are due and
//! unsent and the write that records one dispatch, and the reads and writes by
//! which tasks come and go.

use vstd::prelude::*;
use crate::notification::Notification;
use crate::object_id::ObjectId;
use crate::task::{Status, Task};

verus! {

/// Every task has an identifier, and no two tasks share one.
pub open spec fn distinct_ids(tasks: Seq<Task>) -> bool {
    &&& forall|i: int| 0 <= i < tasks.len() ==> (#[trigger] tasks[i]).id.is_some()
    &&& forall|i: int, j: int|
        0 <= i < j < tasks.len() ==> (#[trigger] tasks[i]).id != (#[trigger] tasks[j]).id
}

/// Whether a task is stored under `id`.
pub open spec fn holds_id(tasks: Seq<Task>, id: ObjectId) -> bool {
    exists|i: int| 0 <= i < tasks.len() && (#[trigger] tasks[i]).id == Some(id)
}

/// The test that `due_unsent` applies to each task.
pub open spec fn due_filter(lower: i64, upper: i64) -> spec_fn(Task) -> bool {
    |t: Task| t.is_due(lower, upper)
}

/// The tasks that carry an unsent reminder due within `lower ..= upper`, in
/// the order in which they are stored.
pub open spec fn due_unsent(tasks: Seq<Task>, lower: i64, upper: i64) -> Seq<Task> {
    tasks.filter(due_filter(lower, upper))
}

/// Whether the task stored under `id` carries an unsent reminder.
pub open spec fn can_mark(tasks: Seq<Task>, id: ObjectId) -> bool {
    exists|i: int|
        0 <= i < tasks.len() && (#[trigger] tasks[i]).id == Some(id) && tasks[i].is_unsent()
}

/// The tasks once the reminder of the task stored under `id` has been
/// recorded as sent.
pub open spec fn marked(tasks: Seq<Task>, id: ObjectId) -> Seq<Task> {
    Seq::new(
        tasks.len(),
        |i: int|
            if tasks[i].id == Some(id) {
                tasks[i].as_sent()
            } else {
                tasks[i]
            },
    )
}

/// The test that `with_notifications` applies to each task.
pub open spec fn reminder_filter(user_id: ObjectId) -> spec_fn(Task) -> bool {
    |t: Task| t.user_id == user_id && t.notification.is_some()
}

/// The tasks of `user_id` that carry a reminder, in the order in which they
/// are stored.
pub open spec fn with_notifications(tasks: Seq<Task>, user_id: ObjectId) -> Seq<Task> {
    tasks.filter(reminder_filter(user_id))
}

/// The test that `owned_by` applies to each task.
pub open spec fn owner_filter(user_id: ObjectId) -> spec_fn(Task) -> bool {
    |t: Task| t.user_id == user_id
}

/// The tasks of `user_id`, in the order in which they are stored.
pub open spec fn owned_by(tasks: Seq<Task>, user_id: ObjectId) -> Seq<Task> {
    tasks.filter(owner_filter(user_id))
}

/// The test that `without_id` applies to each task.
pub open spec fn other_than(id: ObjectId) -> spec_fn(Task) -> bool {
    |t: Task| t.id != Some(id)
}

/// The tasks but the one stored under `id`.
pub open spec fn without_id(tasks: Seq<Task>, id: ObjectId) -> Seq<Task> {
    tasks.filter(other_than(id))
}

/// Whether `task` belongs to `user_id` and bears the title `title`.
pub open spec fn titled(task: Task, user_id: ObjectId, title: Seq<char>) -> bool {
    task.user_id == user_id && task.title@ == title
}

/// `task` with each field replaced for which a new value is given. A new
/// reminder of `Some(None)` takes the reminder away.
pub open spec fn updated(
    task: Task,
    title: Option<String>,
    description: Option<String>,
    start_date: Option<i64>,
    end_date: Option<i64>,
    status: Option<Status>,
    category_id: Option<ObjectId>,
    notification: Option<Option<Notification>>,
) -> Task {
    Task {
        id: task.id,
        title: match title {
            Some(t) => t,
            None => task.title,
        },
        description: match description {
            Some(d) => d,
            None => task.description,
        },
        start_date: match start_date {
            Some(s) => s,
            None => task.start_date,
        },
        end_date: match end_date {
            Some(e) => e,
            None => task.end_date,
        },
        status: match status {
            Some(s) => s,
            None => task.status,
        },
        user_id: task.user_id,
        category_id: match category_id {
            Some(c) => Some(c),
            None => task.category_id,
        },
        notification: match notification {
            Some(n) => n,
            None => task.notification,
        },
    }
}

/// The stored tasks.
pub struct TaskRepository {
    tasks: Vec<Task>,
}

impl View for TaskRepository {
    type V = Seq<Task>;

    closed spec fn view(&self) -> Seq<Task> {
        self.tasks@
    }
}

impl TaskRepository {
    /// What holds of every repository: each task has its own identifier.
    pub open spec fn wf(&self) -> bool {
        distinct_ids(self@)
    }

    /// A repository without tasks.
    pub fn new() -> (repository: TaskRepository)
        ensures
            repository.wf(),
            repository@ == Seq::<Task>::empty(),
    {
        TaskRepository { tasks: Vec::new() }
    }

    /// Number of stored tasks.
    pub fn len(&self) -> (count: usize)
        ensures
            count == self@.len(),
    {
        self.tasks.len()
    }

    /// Position of the task stored under `id`.
    fn position(&self, id: &ObjectId) -> (found: Option<usize>)
        ensures
            found.is_some() <==> holds_id(self@, *id),
            found matches Some(i) ==> i < self@.len() && self@[i as int].id == Some(*id),
    {
        let mut i: usize = 0;
        while i < self.tasks.len()
            invariant
                i <= self.tasks.len(),
                forall|j: int| 0 <= j < i ==> (#[trigger] self.tasks@[j]).id != Some(*id),
            decreases self.tasks.len() - i,
        {
            if self.tasks[i].id == Some(*id) {
                return Some(i);
            }
            i += 1;
        }
        None
    }

    /// Whether a task is stored under `id`.
    pub fn contains(&self, id: &ObjectId) -> (held: bool)
        ensures
            held == holds_id(self@, *id),
    {
        self.position(id).is_some()
    }

    /// Stores `new_task` and returns the identifier under which it stands:
    /// its own if it has one, a fresh one if not. Nothing is stored, and
    /// `None` returned, where that identifier is already taken.
    pub fn create_task(&mut self, new_task: Task) -> (created: Option<ObjectId>)
        requires
            old(self).wf(),
        ensures
            final(self).wf(),
            new_task.id matches Some(id) ==> created == (if holds_id(old(self)@, id) {
                None
            } else {
                Some(id)
            }),
            match created {
                Some(id) => {
                    &&& !holds_id(old(self)@, id)
                    &&& final(self)@ == old(self)@.push(Task { id: Some(id), ..new_task })
                },
                None => final(self)@ == old(self)@,
            },
    {
        let id: ObjectId = match new_task.id {
            Some(id) => id,
            None => ObjectId::generate(),
        };
        if self.position(&id).is_some() {
            return None;
        }
        let mut stored = new_task;
        stored.id = Some(id);
        self.tasks.push(stored);
        Some(id)
    }

    /// The task stored under `task_id`.
    pub fn get_task_by_id(&self, task_id: &ObjectId) -> (found: Option<Task>)
        requires
            self.wf(),
        ensures
            found.is_some() <==> holds_id(self@, *task_id),
            found matches Some(t) ==> t.id == Some(*task_id) && self@.contains(t),
    {
        match self.position(task_id) {
            Some(i) => Some(self.tasks[i].clone()),
            None => None,
        }
    }

    /// The first stored task of `user_id` that bears the title `title`.
    pub fn get_task_by_title(&self, user_id: &ObjectId, title: &str) -> (found: Option<Task>)
        ensures
            match found {
                Some(t) => exists|i: int|
                    {
                        &&& 0 <= i < self@.len()
                        &&& #[trigger] self@[i] == t
                        &&& titled(t, *user_id, title@)
                        &&& forall|j: int|
                            0 <= j < i ==> !titled(#[trigger] self@[j], *user_id, title@)
                    },
                None => forall|i: int|
                    0 <= i < self@.len() ==> !titled(#[trigger] self@[i], *user_id, title@),
            },
    {
        let wanted: String = title.to_owned();
        let mut i: usize = 0;
        while i < self.tasks.len()
            invariant
                i <= self.tasks.len(),
                wanted@ == title@,
                forall|j: int| 0 <= j < i ==> !titled(#[trigger] self.tasks@[j], *user_id, title@),
            decreases self.tasks.len() - i,
        {
            if self.tasks[i].user_id == *user_id && self.tasks[i].title == wanted {
                let copy: Task = self.tasks[i].clone();
                proof {
                    assert(self@[i as int] == copy);
                    assert(titled(copy, *user_id, title@));
                }
                return Some(copy);
            }
            i += 1;
        }
        None
    }

    /// Replaces, in the task stored under `task_id`, each field for which a
    /// new value is given; a new reminder of `Some(None)` takes the reminder
    /// away. Returns whether a task is stored under `task_id`.
    pub fn update_task(
        &mut self,
        task_id: &ObjectId,
        title: Option<String>,
        description: Option<String>,
        start_date: Option<i64>,
        end_date: Option<i64>,
        status: Option<Status>,
        category_id: Option<ObjectId>,
        notification: Option<Option<Notification>>,
    ) -> (found: bool)
        requires
            old(self).wf(),
        ensures
            final(self).wf(),
            found == holds_id(old(self)@, *task_id),
            final(self)@.len() == old(self)@.len(),
            forall|i: int|
                0 <= i < old(self)@.len() ==> #[trigger] final(self)@[i] == if old(self)@[i].id
                    == Some(*task_id) {
                    updated(
                        old(self)@[i],
                        title,
                        description,
                        start_date,
                        end_date,
                        status,
                        category_id,
                        notification,
                    )
                } else {
                    old(self)@[i]
                },
    {
        match self.position(task_id) {
            Some(i) => {
                let task: Task = self.tasks[i].clone();
                let changed: Task = Task {
                    id: task.id,
                    title: match title {
                        Some(t) => t,
                        None => task.title,
                    },
                    description: match description {
                        Some(d) => d,
                        None => task.description,
                    },
                    start_date: match start_date {
                        Some(s) => s,
                        None => task.start_date,
                    },
                    end_date: match end_date {
                        Some(e) => e,
                        None => task.end_date,
                    },
                    status: match status {
                        Some(s) => s,
                        None => task.status,
                    },
                    user_id: task.user_id,
                    category_id: match category_id {
                        Some(c) => Some(c),
                        None => task.category_id,
                    },
                    notification: match notification {
                        Some(n) => n,
                        None => task.notification,
                    },
                };
                self.tasks.set(i, changed);
                true
            },
            None => false,
        }
    }

    /// Every task that carries an unsent reminder whose due time lies
    /// within `greater_than ..= last_than_or_equals`, in the order in which
    /// the tasks are stored.
    pub fn get_all_not_sent_notifications(
        &self,
        greater_than: i64,
        last_than_or_equals: i64,
    ) -> (found: Vec<Task>)
        ensures
            found@ == due_unsent(self@, greater_than, last_than_or_equals),
            forall|i: int|
                0 <= i < found.len() ==> (#[trigger] found@[i]).is_due(
                    greater_than,
                    last_than_or_equals,
                ) && self@.contains(found@[i]),
            forall|i: int|
                0 <= i < self@.len() && (#[trigger] self@[i]).is_due(
                    greater_than,
                    last_than_or_equals,
                ) ==> found@.contains(self@[i]),
    {
        let mut found: Vec<Task> = Vec::new();
        let mut i: usize = 0;
        while i < self.tasks.len()
            invariant
                i <= self.tasks.len(),
                found@ == due_unsent(
                    self.tasks@.take(i as int),
                    greater_than,
                    last_than_or_equals,
                ),
            decreases self.tasks.len() - i,
        {
            proof {
                lemma_filter_step(
                    self.tasks@,
                    due_filter(greater_than, last_than_or_equals),
                    i as int,
                );
            }
            if self.tasks[i].due_within(greater_than, last_than_or_equals) {
                found.push(self.tasks[i].clone());
            }
            i += 1;
        }
        proof {
            assert(self.tasks@.take(i as int) =~= self.tasks@);
            lemma_filter_exact(self@, due_filter(greater_than, last_than_or_equals));
        }
        found
    }

    /// Records the dispatch of the reminder of the task stored under
    /// `task_id`: sets its `sent` flag if it was not set. Returns whether
    /// that changed anything: `false` where the reminder was already
    /// recorded as sent, or where there is no such task or no reminder on it.
    pub fn mark_notification_as_sent(&mut self, task_id: &ObjectId) -> (changed: bool)
        requires
            old(self).wf(),
        ensures
            final(self).wf(),
            changed == can_mark(old(self)@, *task_id),
            final(self)@ == marked(old(self)@, *task_id),
    {
        match self.position(task_id) {
            Some(i) => {
                let mut task: Task = self.tasks[i].clone();
                let changed: bool = task.mark_notification_sent();
                self.tasks.set(i, task);
                proof {
                    assert(final(self)@ =~= marked(old(self)@, *task_id));
                }
                changed
            },
            None => {
                proof {
                    assert(self@ =~= marked(self@, *task_id));
                }
                false
            },
        }
    }

    /// The tasks of `user_id` that carry a reminder, sent or not, in the
    /// order in which they are stored.
    pub fn get_all_with_notifications(&self, user_id: &ObjectId) -> (found: Vec<Task>)
        ensures
            found@ == with_notifications(self@, *user_id),
            forall|i: int|
                0 <= i < found.len() ==> (#[trigger] found@[i]).user_id == *user_id
                    && found@[i].notification.is_some() && self@.contains(found@[i]),
            forall|i: int|
                0 <= i < self@.len() && (#[trigger] self@[i]).user_id == *user_id
                    && self@[i].notification.is_some() ==> found@.contains(self@[i]),
    {
        let mut found: Vec<Task> = Vec::new();
        let mut i: usize = 0;
        while i < self.tasks.len()
            invariant
                i <= self.tasks.len(),
                found@ == with_notifications(self.tasks@.take(i as int), *user_id),
            decreases self.tasks.len() - i,
        {
            proof {
                lemma_filter_step(self.tasks@, reminder_filter(*user_id), i as int);
            }
            if self.tasks[i].user_id == *user_id && self.tasks[i].notification.is_some() {
                found.push(self.tasks[i].clone());
            }
            i += 1;
        }
        proof {
            assert(self.tasks@.take(i as int) =~= self.tasks@);
            lemma_filter_exact(self@, reminder_filter(*user_id));
        }
        found
    }

    /// The tasks of `user_id`, in the order in which they are stored.
    pub fn get_all_user_tasks(&self, user_id: &ObjectId) -> (found: Vec<Task>)
        ensures
            found@ == owned_by(self@, *user_id),
    {
        let mut found: Vec<Task> = Vec::new();
        let mut i: usize = 0;
        while i < self.tasks.len()
            invariant
                i <= self.tasks.len(),
                found@ == owned_by(self.tasks@.take(i as int), *user_id),
            decreases self.tasks.len() - i,
        {
            proof {
                lemma_filter_step(self.tasks@, owner_filter(*user_id), i as int);
            }
            if self.tasks[i].user_id == *user_id {
                found.push(self.tasks[i].clone());
            }
            i += 1;
        }
        proof {
            assert(self.tasks@.take(i as int) =~= self.tasks@);
        }
        found
    }

    /// Removes the task stored under `task_id` and tells whether there was
    /// one.
    pub fn delete_task(&mut self, task_id: &ObjectId) -> (deleted: bool)
        requires
            old(self).wf(),
        ensures
            final(self).wf(),
            deleted == holds_id(old(self)@, *task_id),
            final(self)@ == without_id(old(self)@, *task_id),
    {
        match self.position(task_id) {
            Some(i) => {
                let _removed: Task = self.tasks.remove(i);
                proof {
                    lemma_remove_is_without(old(self)@, *task_id, i as int);
                }
                true
            },
            None => {
                proof {
                    lemma_absent_is_without(self@, *task_id);
                }
                false
            },
        }
    }
}

/// Filtering one task more either appends that task or changes nothing.
pub proof fn lemma_filter_step(tasks: Seq<Task>, keep: spec_fn(Task) -> bool, i: int)
    requires
        0 <= i < tasks.len(),
    ensures
        tasks.take(i + 1).filter(keep) == if keep(tasks[i]) {
            tasks.take(i).filter(keep).push(tasks[i])
        } else {
            tasks.take(i).filter(keep)
        },
{
    reveal(Seq::filter);
    assert(tasks.take(i + 1).drop_last() =~= tasks.take(i));
}

/// A filtered sequence holds exactly the tasks that pass the test.
pub proof fn lemma_filter_exact(tasks: Seq<Task>, keep: spec_fn(Task) -> bool)
    ensures
        forall|i: int|
            0 <= i < tasks.filter(keep).len() ==> keep(#[trigger] tasks.filter(keep)[i])
                && tasks.contains(tasks.filter(keep)[i]),
        forall|i: int|
            0 <= i < tasks.len() && keep(#[trigger] tasks[i]) ==> tasks.filter(keep).contains(
                tasks[i],
            ),
    decreases tasks.len(),
{
    reveal(Seq::filter);
    if tasks.len() > 0 {
        let front = tasks.drop_last();
        lemma_filter_exact(front, keep);
        let kept = tasks.filter(keep);
        assert forall|i: int| 0 <= i < kept.len() implies keep(#[trigger] kept[i])
            && tasks.contains(kept[i]) by {
            if i < front.filter(keep).len() {
                assert(kept[i] == front.filter(keep)[i]);
                assert(front.contains(kept[i]));
                let j = choose|j: int| 0 <= j < front.len() && front[j] == kept[i];
                assert(tasks[j] == kept[i]);
            } else {
                assert(kept[i] == tasks.last());
                assert(tasks[tasks.len() - 1] == kept[i]);
            }
        }
        assert forall|i: int|
            0 <= i < tasks.len() && keep(#[trigger] tasks[i]) implies kept.contains(tasks[i]) by {
            if i < front.len() {
                assert(front[i] == tasks[i]);
                assert(front.filter(keep).contains(front[i]));
                let j = choose|j: int|
                    0 <= j < front.filter(keep).len() && front.filter(keep)[j] == front[i];
                assert(kept[j] == tasks[i]);
            } else {
                assert(kept[kept.len() - 1] == tasks[i]);
            }
        }
    }
}

/// Tasks with distinct identifiers still have them when the last task is
/// left out.
pub proof fn lemma_front_distinct(tasks: Seq<Task>)
    requires
        distinct_ids(tasks),
        tasks.len() > 0,
    ensures
        distinct_ids(tasks.drop_last()),
{
    let front = tasks.drop_last();
    assert forall|i: int| 0 <= i < front.len() implies (#[trigger] front[i]).id.is_some() by {
        assert(front[i] == tasks[i]);
    }
    assert forall|i: int, j: int| 0 <= i < j < front.len() implies (#[trigger] front[i]).id != (
    #[trigger] front[j]).id by {
        assert(front[i] == tasks[i]);
        assert(front[j] == tasks[j]);
    }
}

/// Filtering keeps the identifiers distinct.
pub proof fn lemma_filter_distinct(tasks: Seq<Task>, keep: spec_fn(Task) -> bool)
    requires
        distinct_ids(tasks),
    ensures
        distinct_ids(tasks.filter(keep)),
    decreases tasks.len(),
{
    reveal(Seq::filter);
    if tasks.len() > 0 {
        let front = tasks.drop_last();
        lemma_front_distinct(tasks);
        lemma_filter_distinct(front, keep);
        lemma_filter_exact(front, keep);
        let kept = tasks.filter(keep);
        let before = front.filter(keep);
        if keep(tasks.last()) {
            assert(kept == before.push(tasks.last()));
            assert forall|i: int| 0 <= i < kept.len() implies (#[trigger] kept[i]).id.is_some() by {
                if i < before.len() {
                    assert(kept[i] == before[i]);
                } else {
                    assert(kept[i] == tasks[tasks.len() - 1]);
                }
            }
            assert forall|i: int, j: int| 0 <= i < j < kept.len() implies (#[trigger] kept[i]).id
                != (#[trigger] kept[j]).id by {
                assert(kept[i] == before[i]);
                if j < before.len() {
                    assert(kept[j] == before[j]);
                } else {
                    assert(kept[j] == tasks[tasks.len() - 1]);
                    assert(front.contains(before[i]));
                    let m = choose|m: int| 0 <= m < front.len() && front[m] == before[i];
                    assert(tasks[m] == before[i]);
                }
            }
        }
    }
}

/// Where no task is stored under `id`, leaving that task out changes
/// nothing.
proof fn lemma_absent_is_without(tasks: Seq<Task>, id: ObjectId)
    requires
        !holds_id(tasks, id),
    ensures
        without_id(tasks, id) == tasks,
    decreases tasks.len(),
{
    reveal(Seq::filter);
    if tasks.len() > 0 {
        let front = tasks.drop_last();
        assert forall|i: int| 0 <= i < front.len() implies (#[trigger] front[i]).id != Some(
            id,
        ) by {
            assert(tasks[i].id != Some(id));
        }
        lemma_absent_is_without(front, id);
        assert(tasks[tasks.len() - 1].id != Some(id));
        assert(front.push(tasks.last()) =~= tasks);
    }
}

/// Where the identifiers differ, leaving out the task under `id` removes
/// the one position at which it stands.
proof fn lemma_remove_is_without(tasks: Seq<Task>, id: ObjectId, at: int)
    requires
        distinct_ids(tasks),
        0 <= at < tasks.len(),
        tasks[at].id == Some(id),
    ensures
        without_id(tasks, id) == tasks.remove(at),
        distinct_ids(tasks.remove(at)),
    decreases tasks.len(),
{
    reveal(Seq::filter);
    let front = tasks.drop_last();
    assert(distinct_ids(tasks.remove(at))) by {
        let rest = tasks.remove(at);
        assert forall|i: int| 0 <= i < rest.len() implies (#[trigger] rest[i]).id.is_some() by {
            if i < at {
                assert(rest[i] == tasks[i]);
            } else {
                assert(rest[i] == tasks[i + 1]);
            }
        }
        assert forall|i: int, j: int| 0 <= i < j < rest.len() implies (#[trigger] rest[i]).id != (
        #[trigger] rest[j]).id by {
            let a = if i < at { i } else { i + 1 };
            let b = if j < at { j } else { j + 1 };
            assert(rest[i] == tasks[a]);
            assert(rest[j] == tasks[b]);
        }
    }
    if at == tasks.len() - 1 {
        assert forall|i: int| 0 <= i < front.len() implies (#[trigger] front[i]).id != Some(
            id,
        ) by {
            assert(front[i] == tasks[i]);
            assert(tasks[i].id != tasks[at].id);
        }
        lemma_absent_is_without(front, id);
        assert(tasks.remove(at) =~= front);
    } else {
        lemma_front_distinct(tasks);
        assert(front[at] == tasks[at]);
        lemma_remove_is_without(front, id, at);
        assert(tasks[at].id != tasks[tasks.len() - 1].id);
        assert(tasks.remove(at) =~= front.remove(at).push(tasks.last()));
    }
}

} // verus!
