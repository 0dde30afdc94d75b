//! The dispatcher's message path: load the conversation's state (default on
//! miss), run the transition, persist its effect, hand the reply back.
//!
//! `step_map` is the model of one handled message event; `run_messages` folds
//! events for one conversation in submission order, which is the serialized
//! semantics a caller must realize (one event's read-modify-persist cycle
//! completes before the next begins, per conversation identity).

use crate::dialogue::dispatch_message;
use crate::dialogue::state_step;
use crate::dialogue::HandlerError;
use crate::dialogue::StoreEffect;
use crate::reply::Reply;
use crate::state::State;
use crate::store::stored_state;
use crate::store::MemStore;
use vstd::prelude::*;

verus! {

/// A store model after one effect for conversation `id`.
pub open spec fn apply_effect(m: Map<i64, State>, id: i64, e: StoreEffect) -> Map<i64, State> {
    match e {
        StoreEffect::Keep => m,
        StoreEffect::Save(st) => m.insert(id, st),
        StoreEffect::Clear => m.remove(id),
    }
}

/// The outcome of one message event against a store model.
pub open spec fn message_outcome(m: Map<i64, State>, id: i64, text: Seq<char>, bot: Seq<char>) -> Result<
    (StoreEffect, Reply),
    HandlerError,
> {
    state_step(stored_state(m, id), text, bot)
}

/// The store model after one message event; an aborted event changes nothing.
pub open spec fn step_map(m: Map<i64, State>, id: i64, text: Seq<char>, bot: Seq<char>) -> Map<
    i64,
    State,
> {
    match message_outcome(m, id, text, bot) {
        Ok(p) => apply_effect(m, id, p.0),
        Err(_) => m,
    }
}

/// The store model after a run of message events for one conversation,
/// applied one after the other in submission order.
pub open spec fn run_messages(
    m: Map<i64, State>,
    id: i64,
    texts: Seq<Seq<char>>,
    bot: Seq<char>,
) -> Map<i64, State>
    decreases texts.len(),
{
    if texts.len() == 0 {
        m
    } else {
        run_messages(step_map(m, id, texts[0], bot), id, texts.subrange(1, texts.len() as int), bot)
    }
}

/// Handle one message event: read the state (default on miss), run the
/// transition, persist the effect, and return the reply to send — or the
/// error that aborts the event with no reply and no state change.
pub fn handle_message_event(store: &mut MemStore, id: i64, text: &str, bot_name: &str) -> (r:
    Result<Reply, HandlerError>)
    ensures
        final(store)@ == step_map(old(store)@, id, text@, bot_name@),
        match (r, message_outcome(old(store)@, id, text@, bot_name@)) {
            (Ok(rep), Ok(p)) => rep == p.1,
            (Err(e), Err(e0)) => e == e0,
            _ => false,
        },
{
    let st = store.get_or_start(id);
    match dispatch_message(st, text, bot_name) {
        Ok((effect, reply)) => {
            match effect {
                StoreEffect::Keep => {},
                StoreEffect::Save(new_st) => store.save(id, new_st),
                StoreEffect::Clear => store.clear(id),
            }
            Ok(reply)
        },
        Err(e) => Err(e),
    }
}

} // verus!
