//! The replies the dialogue produces, and their exact text.

use crate::numbers::i32_text;
use crate::numbers::int_text;
use vstd::prelude::*;
use vstd::string::StringExecFns;

verus! {

/// What the dialogue answers to one message.  Each variant renders as one
/// fixed text, given by `reply_text`; `BattleCall` goes out with the battle
/// keyboard attached.
#[derive(Clone, Copy, PartialEq, Eq, Structural, Debug)]
pub enum Reply {
    Remembered(i32),
    AskNumber,
    YourNumber(i32),
    Resetted,
    Added(i32),
    Subed(i32),
    BattleCall,
    Fallback,
}

/// The exact text of a reply.
pub open spec fn reply_text(r: Reply) -> Seq<char> {
    match r {
        Reply::Remembered(n) => "Remembered number "@ + int_text(n as int)
            + ". Now use /get or /reset"@,
        Reply::AskNumber => "Please, send me a number"@,
        Reply::YourNumber(n) => "Here is your number: "@ + int_text(n as int),
        Reply::Resetted => "Number resetted"@,
        Reply::Added(n) => "Number added, now "@ + int_text(n as int),
        Reply::Subed(n) => "Number subed, now "@ + int_text(n as int),
        Reply::BattleCall => "Let's battle!"@,
        Reply::Fallback => "Please, send /get or /reset"@,
    }
}

/// Whether a reply goes out with the battle keyboard attached.
pub open spec fn spec_wants_keyboard(r: Reply) -> bool {
    r is BattleCall
}

impl Reply {
    /// Render the reply as its text.
    pub fn text(&self) -> (s: String)
        ensures
            s@ == reply_text(*self),
    {
        match self {
            Reply::Remembered(n) => {
                let mut s = String::from_str("Remembered number ");
                let d = i32_text(*n);
                s.append(d.as_str());
                s.append(". Now use /get or /reset");
                proof {
                    assert(s@ =~= reply_text(*self));
                }
                s
            },
            Reply::AskNumber => String::from_str("Please, send me a number"),
            Reply::YourNumber(n) => {
                let mut s = String::from_str("Here is your number: ");
                let d = i32_text(*n);
                s.append(d.as_str());
                s
            },
            Reply::Resetted => String::from_str("Number resetted"),
            Reply::Added(n) => {
                let mut s = String::from_str("Number added, now ");
                let d = i32_text(*n);
                s.append(d.as_str());
                s
            },
            Reply::Subed(n) => {
                let mut s = String::from_str("Number subed, now ");
                let d = i32_text(*n);
                s.append(d.as_str());
                s
            },
            Reply::BattleCall => String::from_str("Let's battle!"),
            Reply::Fallback => String::from_str("Please, send /get or /reset"),
        }
    }

    /// Whether this reply goes out with the battle keyboard attached.
    pub fn wants_keyboard(&self) -> (b: bool)
        ensures
            b == spec_wants_keyboard(*self),
    {
        match self {
            Reply::BattleCall => true,
            _ => false,
        }
    }
}

} // verus!
