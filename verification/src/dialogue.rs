//! The dialogue transition table.
//!
//! Every (state, message) pair yields a store effect and either a reply or an
//! error that aborts the event with no reply.  `start_step`, `number_step`
//! and `state_step` state the table; the handlers are proved to compute it.

use crate::command::parse_command_spec;
use crate::command::Command;
use crate::command::CommandView;
use crate::numbers::parse_i32;
use crate::numbers::parse_i32_spec;
use crate::reply::Reply;
use crate::state::State;
use vstd::prelude::*;
use vstd::wrapping::i32_specs;

verus! {

/// What one event does to the stored state of its conversation.
#[derive(Clone, Copy, PartialEq, Eq, Structural, Debug)]
pub enum StoreEffect {
    /// leave the entry as it is
    Keep,
    /// store the new state
    Save(State),
    /// drop the entry, so the conversation reads as `Start` again
    Clear,
}

/// Why handling one event aborts.  An aborted event sends no reply and leaves
/// the stored state untouched; other conversations are unaffected.
#[derive(Clone, Copy, PartialEq, Eq, Structural, Debug)]
pub enum HandlerError {
    /// the argument of `/add` or `/sub` is no 32-bit number: the event aborts
    /// as a hard error rather than drawing the fallback reply
    BadNumberArg,
    /// the message arrived in the battle state, which carries no number to
    /// hand to the shared number handler
    NoPayload,
}

/// What a message does in `Start`: the text of a 32-bit number is remembered
/// and confirmed; anything else changes nothing and asks for a number.
pub open spec fn start_step(text: Seq<char>) -> (StoreEffect, Reply) {
    match parse_i32_spec(text) {
        Some(n) => (StoreEffect::Save(State::GotNumber(n)), Reply::Remembered(n)),
        None => (StoreEffect::Keep, Reply::AskNumber),
    }
}

/// What a message does in a payload-bearing state holding `num`.  `/get` and
/// `/battle` keep the state; `/reset` clears the entry; `/add` and `/sub`
/// move to the new number with the platform's 32-bit wraparound; a malformed
/// numeric argument aborts the event; any other text draws the fallback
/// reply and keeps the state.
pub open spec fn number_step(num: i32, text: Seq<char>, bot: Seq<char>) -> Result<
    (StoreEffect, Reply),
    HandlerError,
> {
    match parse_command_spec(text, bot) {
        Some(CommandView::Get) => Ok((StoreEffect::Keep, Reply::YourNumber(num))),
        Some(CommandView::Reset) => Ok((StoreEffect::Clear, Reply::Resetted)),
        Some(CommandView::Add(a)) => match parse_i32_spec(a) {
            Some(k) => {
                let w = i32_specs::wrapping_add(num, k);
                Ok((StoreEffect::Save(State::AddNumber(w)), Reply::Added(w)))
            },
            None => Err(HandlerError::BadNumberArg),
        },
        Some(CommandView::Sub(a)) => match parse_i32_spec(a) {
            Some(k) => {
                let w = i32_specs::wrapping_sub(num, k);
                Ok((StoreEffect::Save(State::SubNumber(w)), Reply::Subed(w)))
            },
            None => Err(HandlerError::BadNumberArg),
        },
        Some(CommandView::Battle) => Ok((StoreEffect::Keep, Reply::BattleCall)),
        None => Ok((StoreEffect::Keep, Reply::Fallback)),
    }
}

/// The transition for every state: `Start` takes numbers, the three
/// payload-bearing states share the number handler, and the battle state has
/// no number to hand to that handler, so a message there aborts.
pub open spec fn state_step(st: State, text: Seq<char>, bot: Seq<char>) -> Result<
    (StoreEffect, Reply),
    HandlerError,
> {
    match st {
        State::Start => Ok(start_step(text)),
        State::GotNumber(n) => number_step(n, text, bot),
        State::AddNumber(n) => number_step(n, text, bot),
        State::SubNumber(n) => number_step(n, text, bot),
        State::BattlePlayer => Err(HandlerError::NoPayload),
    }
}

/// Handle a message in `Start`.
pub fn handle_start(text: &str) -> (r: (StoreEffect, Reply))
    ensures
        r == start_step(text@),
{
    match parse_i32(text) {
        Some(n) => (StoreEffect::Save(State::GotNumber(n)), Reply::Remembered(n)),
        None => (StoreEffect::Keep, Reply::AskNumber),
    }
}

/// Handle a message in a payload-bearing state holding `num`.
pub fn handle_got_number(num: i32, text: &str, bot_name: &str) -> (r: Result<
    (StoreEffect, Reply),
    HandlerError,
>)
    ensures
        r == number_step(num, text@, bot_name@),
{
    match Command::parse(text, bot_name) {
        Some(Command::Get) => Ok((StoreEffect::Keep, Reply::YourNumber(num))),
        Some(Command::Reset) => Ok((StoreEffect::Clear, Reply::Resetted)),
        Some(Command::Add(a)) => match parse_i32(a.as_str()) {
            Some(k) => {
                let w = num.wrapping_add(k);
                Ok((StoreEffect::Save(State::AddNumber(w)), Reply::Added(w)))
            },
            None => Err(HandlerError::BadNumberArg),
        },
        Some(Command::Sub(a)) => match parse_i32(a.as_str()) {
            Some(k) => {
                let w = num.wrapping_sub(k);
                Ok((StoreEffect::Save(State::SubNumber(w)), Reply::Subed(w)))
            },
            None => Err(HandlerError::BadNumberArg),
        },
        Some(Command::Battle) => Ok((StoreEffect::Keep, Reply::BattleCall)),
        None => Ok((StoreEffect::Keep, Reply::Fallback)),
    }
}

/// Route one message by the current state.
pub fn dispatch_message(st: State, text: &str, bot_name: &str) -> (r: Result<
    (StoreEffect, Reply),
    HandlerError,
>)
    ensures
        r == state_step(st, text@, bot_name@),
{
    match st {
        State::Start => Ok(handle_start(text)),
        State::GotNumber(n) => handle_got_number(n, text, bot_name),
        State::AddNumber(n) => handle_got_number(n, text, bot_name),
        State::SubNumber(n) => handle_got_number(n, text, bot_name),
        State::BattlePlayer => Err(HandlerError::NoPayload),
    }
}

} // verus!
