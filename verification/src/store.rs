//! The per-conversation state store.
//!
//! A key-value map from conversation identity to dialogue state, with the
//! default-on-miss read the dialogue relies on: a conversation with no entry
//! reads as `Start`.  Operations are scoped per key, so no operation touches
//! another conversation's entry.

use crate::state::State;
use std::collections::HashMap;
use vstd::prelude::*;

verus! {

broadcast use vstd::std_specs::hash::group_hash_axioms;

/// The state a store model holds for a conversation: absence reads as `Start`.
pub open spec fn stored_state(m: Map<i64, State>, id: i64) -> State {
    if m.contains_key(id) {
        m[id]
    } else {
        State::Start
    }
}

/// An in-memory store from conversation identity to dialogue state.
pub struct MemStore {
    map: HashMap<i64, State>,
}

impl View for MemStore {
    type V = Map<i64, State>;

    closed spec fn view(&self) -> Map<i64, State> {
        self.map@
    }
}

impl MemStore {
    /// An empty store: every conversation reads as `Start`.
    pub fn new() -> (s: Self)
        ensures
            s@ == Map::<i64, State>::empty(),
    {
        MemStore { map: HashMap::new() }
    }

    /// The state stored for `id`, `Start` when absent.
    pub fn get_or_start(&self, id: i64) -> (st: State)
        ensures
            st == stored_state(self@, id),
    {
        match self.map.get(&id) {
            Some(st) => *st,
            None => State::Start,
        }
    }

    /// Store `st` for `id`, leaving every other entry as it was.
    pub fn save(&mut self, id: i64, st: State)
        ensures
            final(self)@ == old(self)@.insert(id, st),
    {
        self.map.insert(id, st);
    }

    /// Drop the entry of `id`, which reads as `Start` afterwards, leaving
    /// every other entry as it was.
    pub fn clear(&mut self, id: i64)
        ensures
            final(self)@ == old(self)@.remove(id),
    {
        self.map.remove(&id);
    }
}

} // verus!
