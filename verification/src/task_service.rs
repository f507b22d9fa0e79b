//! The rules by which tasks are created, changed and removed.
//!
//! Each rule takes what the store answered and decides what happens next:
//! the task to store, the fields to change, or the reason why nothing is
//! done.

use vstd::prelude::*;
use crate::notification::{scheduled_at, Notification, TimeUnit};
use crate::object_id::ObjectId;
use crate::task::{Status, Task};

verus! {

/// Why a request on a task was turned down.
#[derive(Clone, Copy, Debug, PartialEq, Eq, Structural)]
pub enum TaskServiceError {
    /// The user has another task of that title.
    TaskAlreadyExists,
    /// There is no such task.
    TaskNotFound,
    /// The reminder would fall due before the earliest time that can be
    /// represented.
    NotificationOutOfRange,
}

impl TaskServiceError {
    /// The error in words.
    pub open spec fn spec_message(self) -> Seq<char> {
        match self {
            TaskServiceError::TaskAlreadyExists => "Task already exists"@,
            TaskServiceError::TaskNotFound => "Task not found"@,
            TaskServiceError::NotificationOutOfRange => "Notification time out of range"@,
        }
    }

    /// The error in words.
    pub fn message(&self) -> (text: String)
        ensures
            text@ == self.spec_message(),
    {
        match self {
            TaskServiceError::TaskAlreadyExists => "Task already exists".to_owned(),
            TaskServiceError::TaskNotFound => "Task not found".to_owned(),
            TaskServiceError::NotificationOutOfRange => "Notification time out of range".to_owned(),
        }
    }
}

/// What a user asks for when creating a task.
#[derive(Debug)]
pub struct CreateTaskRequest {
    pub title: String,
    pub description: String,
    pub start_date: i64,
    pub end_date: i64,
    pub status: Status,
    pub category_id: ObjectId,
    /// Unit of the reminder's offset. A reminder is asked for where both the
    /// unit and the value are given.
    pub notification_time_unit: Option<TimeUnit>,
    /// Value of the reminder's offset.
    pub notification_time_value: Option<u16>,
}

/// What a user asks for when changing a task: a new value for each field
/// that is to change.
#[derive(Debug)]
pub struct UpdateTaskRequest {
    pub title: Option<String>,
    pub description: Option<String>,
    pub start_date: Option<i64>,
    pub end_date: Option<i64>,
    pub status: Option<Status>,
    pub category_id: Option<ObjectId>,
    /// `Some(Some(unit))` together with a value asks for a new reminder;
    /// `Some(None)` together with a value of `Some(None)` asks for the
    /// reminder to be taken away.
    pub notification_time_unit: Option<Option<TimeUnit>>,
    pub notification_time_value: Option<Option<u16>>,
}

/// The fields of a task that are to change, each with its new value.
#[derive(Debug)]
pub struct TaskChanges {
    pub title: Option<String>,
    pub description: Option<String>,
    pub start_date: Option<i64>,
    pub end_date: Option<i64>,
    pub status: Option<Status>,
    pub category_id: Option<ObjectId>,
    /// `Some(Some(reminder))` replaces the reminder, `Some(None)` takes it
    /// away, `None` leaves it as it is.
    pub notification: Option<Option<Notification>>,
}

/// Whether `reminder` is the unsent reminder of `time_value` units of
/// `time_unit` before `start_date`.
pub open spec fn is_reminder_for(
    reminder: Notification,
    start_date: i64,
    time_unit: TimeUnit,
    time_value: u16,
) -> bool {
    &&& reminder.time_unit == time_unit
    &&& reminder.time_value == time_value
    &&& reminder.scheduled_time == scheduled_at(start_date, time_unit, time_value)
    &&& !reminder.sent
}

/// Whether creating a task from `task_data` fails for want of a time at
/// which its reminder could fall due.
pub open spec fn create_out_of_range(task_data: CreateTaskRequest) -> bool {
    match (task_data.notification_time_unit, task_data.notification_time_value) {
        (Some(unit), Some(value)) => scheduled_at(task_data.start_date, unit, value) < i64::MIN,
        _ => false,
    }
}

/// The start to which a change of `old_data` by `task_data` moves the task.
pub open spec fn start_after(old_data: Task, task_data: UpdateTaskRequest) -> i64 {
    match task_data.start_date {
        Some(start) => start,
        None => old_data.start_date,
    }
}

/// Whether changing `old_data` by `task_data` fails for want of a time at
/// which the new reminder could fall due.
pub open spec fn update_out_of_range(old_data: Task, task_data: UpdateTaskRequest) -> bool {
    match (task_data.notification_time_unit, task_data.notification_time_value) {
        (Some(Some(unit)), Some(Some(value))) => scheduled_at(
            start_after(old_data, task_data),
            unit,
            value,
        ) < i64::MIN,
        _ => false,
    }
}

/// Whether a change of the task `task_id` to a title under which
/// `same_title` is stored runs into another task.
pub open spec fn title_taken(
    task_data: UpdateTaskRequest,
    same_title: Option<Task>,
    task_id: ObjectId,
) -> bool {
    task_data.title.is_some() && (same_title matches Some(other) && other.id != Some(task_id))
}

/// Decides on the creation of a task for `user_id`. `existing` is the
/// user's task of the same title, if the store holds one: then the request is
/// turned down. Otherwise the result is the task to store: it has no
/// identifier yet, and carries a new unsent reminder where the request gives
/// both a unit and a value.
pub fn create_task_for_user(
    existing: Option<&Task>,
    user_id: &ObjectId,
    task_data: CreateTaskRequest,
) -> (planned: Result<Task, TaskServiceError>)
    ensures
        match planned {
            Ok(task) => {
                &&& existing.is_none()
                &&& !create_out_of_range(task_data)
                &&& task.id.is_none()
                &&& task.title == task_data.title
                &&& task.description == task_data.description
                &&& task.start_date == task_data.start_date
                &&& task.end_date == task_data.end_date
                &&& task.status == task_data.status
                &&& task.user_id == *user_id
                &&& task.category_id == Some(task_data.category_id)
                &&& match (task_data.notification_time_unit, task_data.notification_time_value) {
                    (Some(unit), Some(value)) => task.notification matches Some(n)
                        && is_reminder_for(n, task_data.start_date, unit, value),
                    _ => task.notification.is_none(),
                }
            },
            Err(e) => if existing.is_some() {
                e == TaskServiceError::TaskAlreadyExists
            } else {
                create_out_of_range(task_data) && e == TaskServiceError::NotificationOutOfRange
            },
        },
{
    if existing.is_some() {
        return Err(TaskServiceError::TaskAlreadyExists);
    }
    let notification: Option<Notification> = match (
        task_data.notification_time_unit,
        task_data.notification_time_value,
    ) {
        (Some(unit), Some(value)) => {
            match Notification::new(task_data.start_date, unit, value) {
                Some(reminder) => Some(reminder),
                None => {
                    return Err(TaskServiceError::NotificationOutOfRange);
                },
            }
        },
        _ => None,
    };
    Ok(
        Task {
            id: None,
            title: task_data.title,
            description: task_data.description,
            start_date: task_data.start_date,
            end_date: task_data.end_date,
            status: task_data.status,
            user_id: *user_id,
            category_id: Some(task_data.category_id),
            notification,
        },
    )
}

/// Decides on a change of the task `task_id`. `old_data` is the task as the
/// store holds it, and `same_title` the user's task under the new title, if
/// a new title is given and the store holds one. The request is turned down
/// where there is no such task, or where the new title belongs to another
/// task. Otherwise the result says which fields change. A new reminder is
/// unsent, and due before the new start if one is given, before the old one
/// if not.
pub fn update_user_task(
    old_data: Option<&Task>,
    same_title: Option<&Task>,
    task_id: &ObjectId,
    task_data: UpdateTaskRequest,
) -> (planned: Result<TaskChanges, TaskServiceError>)
    ensures
        match planned {
            Ok(changes) => {
                &&& old_data matches Some(old)
                &&& !title_taken(
                    task_data,
                    match same_title {
                        Some(t) => Some(*t),
                        None => None,
                    },
                    *task_id,
                )
                &&& !update_out_of_range(*old, task_data)
                &&& changes.title == task_data.title
                &&& changes.description == task_data.description
                &&& changes.start_date == task_data.start_date
                &&& changes.end_date == task_data.end_date
                &&& changes.status == task_data.status
                &&& changes.category_id == task_data.category_id
                &&& match (task_data.notification_time_unit, task_data.notification_time_value) {
                    (Some(Some(unit)), Some(Some(value))) => changes.notification matches Some(
                        Some(n),
                    ) && is_reminder_for(n, start_after(*old, task_data), unit, value),
                    (Some(None), Some(None)) => changes.notification == Some(
                        None::<Notification>,
                    ),
                    _ => changes.notification.is_none(),
                }
            },
            Err(e) => match old_data {
                None => e == TaskServiceError::TaskNotFound,
                Some(old) => if title_taken(
                    task_data,
                    match same_title {
                        Some(t) => Some(*t),
                        None => None,
                    },
                    *task_id,
                ) {
                    e == TaskServiceError::TaskAlreadyExists
                } else {
                    update_out_of_range(*old, task_data) && e
                        == TaskServiceError::NotificationOutOfRange
                },
            },
        },
{
    let old: &Task = match old_data {
        Some(old) => old,
        None => {
            return Err(TaskServiceError::TaskNotFound);
        },
    };
    if task_data.title.is_some() {
        match same_title {
            Some(other) => {
                if other.id != Some(*task_id) {
                    return Err(TaskServiceError::TaskAlreadyExists);
                }
            },
            None => {},
        }
    }
    let notification: Option<Option<Notification>> = match (
        task_data.notification_time_unit,
        task_data.notification_time_value,
    ) {
        (Some(Some(unit)), Some(Some(value))) => {
            let start_date: i64 = match task_data.start_date {
                Some(start) => start,
                None => old.start_date,
            };
            match Notification::new(start_date, unit, value) {
                Some(reminder) => Some(Some(reminder)),
                None => {
                    return Err(TaskServiceError::NotificationOutOfRange);
                },
            }
        },
        (Some(None), Some(None)) => Some(None),
        _ => None,
    };
    Ok(
        TaskChanges {
            title: task_data.title,
            description: task_data.description,
            start_date: task_data.start_date,
            end_date: task_data.end_date,
            status: task_data.status,
            category_id: task_data.category_id,
            notification,
        },
    )
}

/// Decides on the removal of a task: it is turned down where the store
/// holds no such task, which `existing` says.
pub fn delete_user_task(existing: Option<&Task>) -> (planned: Result<(), TaskServiceError>)
    ensures
        planned == (if existing.is_some() {
            Ok::<(), TaskServiceError>(())
        } else {
            Err::<(), TaskServiceError>(TaskServiceError::TaskNotFound)
        }),
{
    if existing.is_some() {
        Ok(())
    } else {
        Err(TaskServiceError::TaskNotFound)
    }
}

} // verus!
