//! Goals: their priority and how far they have been reached.

use vstd::prelude::*;

verus! {

/// Priority of a goal.
#[derive(Clone, Copy, Debug, PartialEq, Eq, Structural)]
pub enum Priority {
    High,
    Medium,
    Low,
}

impl Priority {
    /// Name of the priority as the store spells it.
    pub open spec fn spec_name(self) -> Seq<char> {
        match self {
            Priority::High => "HIGH"@,
            Priority::Medium => "MEDIUM"@,
            Priority::Low => "LOW"@,
        }
    }

    /// Name of the priority as the store spells it.
    pub fn as_str(&self) -> (name: &'static str)
        ensures
            name@ == self.spec_name(),
    {
        match self {
            Priority::High => "HIGH",
            Priority::Medium => "MEDIUM",
            Priority::Low => "LOW",
        }
    }
}

/// How far a goal has been reached.
#[derive(Clone, Copy, Debug, PartialEq, Eq, Structural)]
pub enum Status {
    NotReached,
    PartiallyReached,
    Reached,
}

impl Status {
    /// Name of the status as the store spells it.
    pub open spec fn spec_name(self) -> Seq<char> {
        match self {
            Status::NotReached => "NOT_REACHED"@,
            Status::PartiallyReached => "PARTIALLY_REACHED"@,
            Status::Reached => "REACHED"@,
        }
    }

    /// Name of the status as the store spells it.
    pub fn as_str(&self) -> (name: &'static str)
        ensures
            name@ == self.spec_name(),
    {
        match self {
            Status::NotReached => "NOT_REACHED",
            Status::PartiallyReached => "PARTIALLY_REACHED",
            Status::Reached => "REACHED",
        }
    }
}

} // verus!
