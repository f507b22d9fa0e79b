//! Task and goal categories.

use vstd::prelude::*;

verus! {

/// Colour with which a category is shown.
#[derive(Clone, Copy, Debug, PartialEq, Eq, Structural)]
pub enum Color {
    Orange,
    Yellow,
    Green,
    Red,
    Purple,
}

impl Color {
    /// Name of the colour as the store spells it.
    pub open spec fn spec_name(self) -> Seq<char> {
        match self {
            Color::Orange => "ORANGE"@,
            Color::Yellow => "YELLOW"@,
            Color::Green => "GREEN"@,
            Color::Red => "RED"@,
            Color::Purple => "PURPLE"@,
        }
    }

    /// Name of the colour as the store spells it.
    pub fn as_str(&self) -> (name: &'static str)
        ensures
            name@ == self.spec_name(),
    {
        match self {
            Color::Orange => "ORANGE",
            Color::Yellow => "YELLOW",
            Color::Green => "GREEN",
            Color::Red => "RED",
            Color::Purple => "PURPLE",
        }
    }
}

} // verus!
