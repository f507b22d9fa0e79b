//! The reminder attached to a task.

use vstd::prelude::*;
use crate::object_id::ObjectId;

verus! {

/// Unit in which a reminder's offset is counted.
#[derive(Clone, Copy, Debug, PartialEq, Eq, Structural)]
pub enum TimeUnit {
    Minute,
    Hour,
}

impl TimeUnit {
    /// Name of the unit as the store spells it.
    pub open spec fn spec_name(self) -> Seq<char> {
        match self {
            TimeUnit::Minute => "MINUTE"@,
            TimeUnit::Hour => "HOUR"@,
        }
    }

    /// Length of one unit in milliseconds.
    pub open spec fn spec_millis(self) -> int {
        match self {
            TimeUnit::Minute => 60_000,
            TimeUnit::Hour => 3_600_000,
        }
    }

    /// Name of the unit as the store spells it.
    pub fn as_str(&self) -> (name: &'static str)
        ensures
            name@ == self.spec_name(),
    {
        match self {
            TimeUnit::Minute => "MINUTE",
            TimeUnit::Hour => "HOUR",
        }
    }

    /// Length of one unit in milliseconds.
    pub fn millis(&self) -> (length: i64)
        ensures
            length == self.spec_millis(),
    {
        match self {
            TimeUnit::Minute => 60_000,
            TimeUnit::Hour => 3_600_000,
        }
    }
}

/// Time at which a reminder of `time_value` units of `time_unit` before
/// `start_time` falls due.
pub open spec fn scheduled_at(start_time: i64, time_unit: TimeUnit, time_value: u16) -> int {
    start_time - time_value * time_unit.spec_millis()
}

/// A reminder. It belongs to exactly one task and is stored inside it.
#[derive(Clone, Copy, Debug, PartialEq, Eq, Structural)]
pub struct Notification {
    /// Identifier, for log correlation only.
    pub id: ObjectId,
    pub time_unit: TimeUnit,
    /// How many units before the task starts the reminder is due.
    pub time_value: u16,
    /// When the reminder is due. Fixed when the reminder is created.
    pub scheduled_time: i64,
    /// Whether the reminder has been dispatched. Goes from `false` to `true`
    /// and never back.
    pub sent: bool,
}

impl Notification {
    /// Whether the reminder is unsent and due within `lower ..= upper`.
    pub open spec fn is_due(self, lower: i64, upper: i64) -> bool {
        !self.sent && lower <= self.scheduled_time <= upper
    }

    /// The reminder once it has been dispatched.
    pub open spec fn as_sent(self) -> Notification {
        Notification { sent: true, ..self }
    }

    /// The unsent reminder `id` for a task that starts at `start_time`, or
    /// `None` where its due time lies before the earliest time that can be
    /// represented.
    pub fn schedule(
        id: ObjectId,
        start_time: i64,
        time_unit: TimeUnit,
        time_value: u16,
    ) -> (reminder: Option<Notification>)
        ensures
            reminder.is_some() <==> scheduled_at(start_time, time_unit, time_value) >= i64::MIN,
            reminder matches Some(n) ==> n == (Notification {
                id,
                time_unit,
                time_value,
                scheduled_time: scheduled_at(start_time, time_unit, time_value) as i64,
                sent: false,
            }),
    {
        let offset: i64 = (time_value as i64) * time_unit.millis();
        match start_time.checked_sub(offset) {
            Some(scheduled_time) => Some(
                Notification { id, time_unit, time_value, scheduled_time, sent: false },
            ),
            None => None,
        }
    }

    /// A new unsent reminder, under a fresh identifier, for a task that
    /// starts at `start_time`; `None` where its due time lies before the
    /// earliest time that can be represented.
    pub fn new(start_time: i64, time_unit: TimeUnit, time_value: u16) -> (reminder: Option<
        Notification,
    >)
        ensures
            reminder.is_some() <==> scheduled_at(start_time, time_unit, time_value) >= i64::MIN,
            reminder matches Some(n) ==> {
                &&& n.time_unit == time_unit
                &&& n.time_value == time_value
                &&& n.scheduled_time == scheduled_at(start_time, time_unit, time_value)
                &&& !n.sent
            },
    {
        Notification::schedule(ObjectId::generate(), start_time, time_unit, time_value)
    }

    /// Whether the reminder is unsent and due within `lower ..= upper`.
    pub fn due_within(&self, lower: i64, upper: i64) -> (due: bool)
        ensures
            due == self.is_due(lower, upper),
    {
        !self.sent && lower <= self.scheduled_time && self.scheduled_time <= upper
    }

    /// Records the dispatch: sets `sent` if it was not set, and tells whether
    /// that changed anything.
    pub fn mark_sent(&mut self) -> (changed: bool)
        ensures
            changed == !old(self).sent,
            *final(self) == old(self).as_sent(),
    {
        let changed: bool = !self.sent;
        self.sent = true;
        changed
    }
}

} // verus!
