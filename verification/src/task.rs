//! Tasks, and the reminder each may carry.

use vstd::prelude::*;
use crate::notification::Notification;
use crate::object_id::ObjectId;

verus! {

/// How far a task has been carried out.
#[derive(Clone, Copy, Debug, PartialEq, Eq, Structural)]
pub enum Status {
    /// Done.
    Executada,
    /// Partially done.
    ParcialmenteExecutada,
    /// Postponed.
    Adiada,
}

impl Status {
    /// Name of the status as the store spells it.
    pub open spec fn spec_name(self) -> Seq<char> {
        match self {
            Status::Executada => "EXECUTADA"@,
            Status::ParcialmenteExecutada => "PARCIALMENTE_EXECUTADA"@,
            Status::Adiada => "ADIADA"@,
        }
    }

    /// Name of the status as the store spells it.
    pub fn as_str(&self) -> (name: &'static str)
        ensures
            name@ == self.spec_name(),
    {
        match self {
            Status::Executada => "EXECUTADA",
            Status::ParcialmenteExecutada => "PARCIALMENTE_EXECUTADA",
            Status::Adiada => "ADIADA",
        }
    }
}

/// A task of one user.
#[derive(Debug)]
pub struct Task {
    /// Identifier; present once the task is stored.
    pub id: Option<ObjectId>,
    pub title: String,
    pub description: String,
    pub start_date: i64,
    pub end_date: i64,
    pub status: Status,
    /// The user who owns the task.
    pub user_id: ObjectId,
    pub category_id: Option<ObjectId>,
    /// The reminder, if one was asked for.
    pub notification: Option<Notification>,
}

impl Clone for Task {
    fn clone(&self) -> (copy: Task)
        ensures
            copy == *self,
    {
        Task {
            id: self.id,
            title: self.title.clone(),
            description: self.description.clone(),
            start_date: self.start_date,
            end_date: self.end_date,
            status: self.status,
            user_id: self.user_id,
            category_id: self.category_id,
            notification: self.notification,
        }
    }
}

impl Task {
    /// Whether the task carries an unsent reminder due within
    /// `lower ..= upper`.
    pub open spec fn is_due(self, lower: i64, upper: i64) -> bool {
        self.notification matches Some(n) && n.is_due(lower, upper)
    }

    /// Whether the task carries a reminder that has not been dispatched.
    pub open spec fn is_unsent(self) -> bool {
        self.notification matches Some(n) && !n.sent
    }

    /// The task once its reminder, if it has one, has been dispatched.
    pub open spec fn as_sent(self) -> Task {
        match self.notification {
            Some(n) => Task { notification: Some(n.as_sent()), ..self },
            None => self,
        }
    }

    /// Whether the task carries an unsent reminder due within
    /// `lower ..= upper`.
    pub fn due_within(&self, lower: i64, upper: i64) -> (due: bool)
        ensures
            due == self.is_due(lower, upper),
    {
        match &self.notification {
            Some(n) => n.due_within(lower, upper),
            None => false,
        }
    }

    /// Records the dispatch of the task's reminder: sets its `sent` flag if
    /// there is a reminder and the flag was not set, and tells whether that
    /// changed anything.
    pub fn mark_notification_sent(&mut self) -> (changed: bool)
        ensures
            changed == old(self).is_unsent(),
            *final(self) == old(self).as_sent(),
    {
        match self.notification {
            Some(n) => {
                let mut reminder = n;
                let changed: bool = reminder.mark_sent();
                self.notification = Some(reminder);
                changed
            },
            None => false,
        }
    }
}

} // verus!
