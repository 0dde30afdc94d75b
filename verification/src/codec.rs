//! The persisted record of one dialogue state.
//!
//! A durable backend stores one record per conversation identity.  The
//! record is a compact, versioned byte layout: the version byte, a tag byte
//! for the variant, and, for the numbered variants, four little-endian bytes
//! holding the number in biased form.  `encoded_record` and `decoded_record`
//! state the layout; `lemma_record_round_trip` proves that every variant,
//! with its full signed 32-bit payload range, survives the trip losslessly.
//! A record of another version, a truncated record, or an unknown tag is
//! rejected.

use crate::state::State;
use vstd::bytes::lemma_auto_spec_u32_to_from_le_bytes;
use vstd::bytes::spec_u32_from_le_bytes;
use vstd::bytes::spec_u32_to_le_bytes;
use vstd::bytes::u32_from_le_bytes;
use vstd::bytes::u32_to_le_bytes;
use vstd::prelude::*;
use vstd::slice::slice_subrange;

verus! {

/// The record layout version this crate writes.
pub const RECORD_VERSION: u8 = 1;

pub const TAG_START: u8 = 0;

pub const TAG_GOT_NUMBER: u8 = 1;

pub const TAG_ADD_NUMBER: u8 = 2;

pub const TAG_SUB_NUMBER: u8 = 3;

pub const TAG_BATTLE_PLAYER: u8 = 4;

/// A number as stored: shifted out of the signed range.
pub open spec fn biased(n: i32) -> u32 {
    ((n as int) + 0x8000_0000) as u32
}

/// The stored form read back.
pub open spec fn unbiased(m: u32) -> i32 {
    ((m as int) - 0x8000_0000) as i32
}

/// The record bytes of a state.
pub open spec fn encoded_record(st: State) -> Seq<u8> {
    match st {
        State::Start => seq![RECORD_VERSION, TAG_START],
        State::GotNumber(n) => seq![RECORD_VERSION, TAG_GOT_NUMBER] + spec_u32_to_le_bytes(
            biased(n),
        ),
        State::AddNumber(n) => seq![RECORD_VERSION, TAG_ADD_NUMBER] + spec_u32_to_le_bytes(
            biased(n),
        ),
        State::SubNumber(n) => seq![RECORD_VERSION, TAG_SUB_NUMBER] + spec_u32_to_le_bytes(
            biased(n),
        ),
        State::BattlePlayer => seq![RECORD_VERSION, TAG_BATTLE_PLAYER],
    }
}

/// The state a record denotes, none for a record of another version, a
/// wrong length or an unknown tag.
pub open spec fn decoded_record(b: Seq<u8>) -> Option<State> {
    if b.len() < 2 || b[0] != RECORD_VERSION {
        None
    } else if b[1] == TAG_START {
        if b.len() == 2 {
            Some(State::Start)
        } else {
            None
        }
    } else if b[1] == TAG_BATTLE_PLAYER {
        if b.len() == 2 {
            Some(State::BattlePlayer)
        } else {
            None
        }
    } else if b[1] == TAG_GOT_NUMBER || b[1] == TAG_ADD_NUMBER || b[1] == TAG_SUB_NUMBER {
        if b.len() == 6 {
            let n = unbiased(spec_u32_from_le_bytes(b.subrange(2, 6)));
            if b[1] == TAG_GOT_NUMBER {
                Some(State::GotNumber(n))
            } else if b[1] == TAG_ADD_NUMBER {
                Some(State::AddNumber(n))
            } else {
                Some(State::SubNumber(n))
            }
        } else {
            None
        }
    } else {
        None
    }
}

fn encode_numbered(tag: u8, n: i32) -> (v: Vec<u8>)
    ensures
        v@ == seq![RECORD_VERSION, tag] + spec_u32_to_le_bytes(biased(n)),
{
    let m: u32 = ((n as i64) + 0x8000_0000i64) as u32;
    let mut bytes = u32_to_le_bytes(m);
    let mut v: Vec<u8> = Vec::new();
    v.push(RECORD_VERSION);
    v.push(tag);
    v.append(&mut bytes);
    proof {
        assert(v@ =~= seq![RECORD_VERSION, tag] + spec_u32_to_le_bytes(biased(n)));
    }
    v
}

/// Write the record of a state.
pub fn encode_state(st: &State) -> (v: Vec<u8>)
    ensures
        v@ == encoded_record(*st),
{
    match st {
        State::Start => {
            let mut v: Vec<u8> = Vec::new();
            v.push(RECORD_VERSION);
            v.push(TAG_START);
            proof {
                assert(v@ =~= encoded_record(*st));
            }
            v
        },
        State::GotNumber(n) => encode_numbered(TAG_GOT_NUMBER, *n),
        State::AddNumber(n) => encode_numbered(TAG_ADD_NUMBER, *n),
        State::SubNumber(n) => encode_numbered(TAG_SUB_NUMBER, *n),
        State::BattlePlayer => {
            let mut v: Vec<u8> = Vec::new();
            v.push(RECORD_VERSION);
            v.push(TAG_BATTLE_PLAYER);
            proof {
                assert(v@ =~= encoded_record(*st));
            }
            v
        },
    }
}

/// Read a record back, rejecting exactly what `decoded_record` rejects.
pub fn decode_state(b: &Vec<u8>) -> (r: Option<State>)
    ensures
        r == decoded_record(b@),
{
    if b.len() < 2 {
        return None;
    }
    let version = b[0];
    let tag = b[1];
    if version != RECORD_VERSION {
        return None;
    }
    if tag == TAG_START {
        if b.len() == 2 {
            Some(State::Start)
        } else {
            None
        }
    } else if tag == TAG_BATTLE_PLAYER {
        if b.len() == 2 {
            Some(State::BattlePlayer)
        } else {
            None
        }
    } else if tag == TAG_GOT_NUMBER || tag == TAG_ADD_NUMBER || tag == TAG_SUB_NUMBER {
        if b.len() == 6 {
            let quad = slice_subrange(b.as_slice(), 2, 6);
            let m = u32_from_le_bytes(quad);
            let n: i32 = ((m as i64) - 0x8000_0000i64) as i32;
            if tag == TAG_GOT_NUMBER {
                Some(State::GotNumber(n))
            } else if tag == TAG_ADD_NUMBER {
                Some(State::AddNumber(n))
            } else {
                Some(State::SubNumber(n))
            }
        } else {
            None
        }
    } else {
        None
    }
}

/// Every state survives the record trip losslessly, the full signed 32-bit
/// payload range included.
pub proof fn lemma_record_round_trip(st: State)
    ensures
        decoded_record(encoded_record(st)) == Some(st),
{
    lemma_auto_spec_u32_to_from_le_bytes();
    match st {
        State::Start => {},
        State::BattlePlayer => {},
        State::GotNumber(n) => {
            assert(encoded_record(st).subrange(2, 6) =~= spec_u32_to_le_bytes(biased(n)));
        },
        State::AddNumber(n) => {
            assert(encoded_record(st).subrange(2, 6) =~= spec_u32_to_le_bytes(biased(n)));
        },
        State::SubNumber(n) => {
            assert(encoded_record(st).subrange(2, 6) =~= spec_u32_to_le_bytes(biased(n)));
        },
    }
}

} // verus!
