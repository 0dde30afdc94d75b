//! The dialogue state held for one conversation.

use vstd::prelude::*;

verus! {

/// Where one conversation stands in the dialogue.  `GotNumber`, `AddNumber`
/// and `SubNumber` remember a signed 32-bit number and are handled alike;
/// `BattlePlayer` marks a presented battle menu and carries no number.  A
/// conversation with no stored entry is read as `Start`.
#[derive(Clone, Copy, PartialEq, Eq, Structural, Debug)]
pub enum State {
    Start,
    GotNumber(i32),
    AddNumber(i32),
    SubNumber(i32),
    BattlePlayer,
}

impl Default for State {
    /// A conversation with no history is at `Start`.
    fn default() -> (s: Self)
        ensures
            s == State::Start,
    {
        State::Start
    }
}

impl State {
    /// The number a payload-bearing state remembers.
    pub open spec fn spec_payload(self) -> Option<i32> {
        match self {
            State::GotNumber(n) => Some(n),
            State::AddNumber(n) => Some(n),
            State::SubNumber(n) => Some(n),
            _ => None,
        }
    }

    /// Whether this state remembers a number.
    pub open spec fn is_payload_bearing(self) -> bool {
        self.spec_payload() is Some
    }

    /// The number a payload-bearing state remembers, none otherwise.
    pub fn payload(&self) -> (r: Option<i32>)
        ensures
            r == self.spec_payload(),
    {
        match self {
            State::GotNumber(n) => Some(*n),
            State::AddNumber(n) => Some(*n),
            State::SubNumber(n) => Some(*n),
            _ => None,
        }
    }
}

} // verus!
