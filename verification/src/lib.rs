//! Core of a conversational agent that remembers one signed 32-bit number per
//! conversation.
//!
//! Each conversation walks through a small dialogue: from `Start` it accepts a
//! number, and once a number is held it accepts the commands `/get`, `/reset`,
//! `/add K`, `/sub K` and `/battle`.  The modules here hold the verified core:
//! decimal text for 32-bit integers, the command grammar, the dialogue
//! transition table, the per-conversation state store, the versioned record
//! layout a durable backend persists, the battle keyboard and the
//! interactive-choice response.  Transport, storage backends and process
//! glue live outside this crate and hand plain values in and out.

pub mod callback;
pub mod codec;
pub mod command;
pub mod dialogue;
pub mod dispatch;
pub mod keyboard;
pub mod laws;
pub mod numbers;
pub mod reply;
pub mod state;
pub mod store;
