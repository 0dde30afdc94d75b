//! The interactive-choice path.
//!
//! A click on a keyboard cell arrives decoupled from the dialogue state
//! machine and is handled statelessly: the event is acknowledged exactly
//! once, and when the originating message is still resolvable it is edited to
//! show who clicked what; otherwise the choice is only logged.

use vstd::prelude::*;
use vstd::string::StringExecFns;

verus! {

/// Where the clicked keyboard's message lives, when it is still resolvable.
#[derive(Clone, Copy, PartialEq, Eq, Structural, Debug)]
pub struct MessageRef {
    pub chat_id: i64,
    pub message_id: i32,
}

/// One interactive choice event: its identity to acknowledge, the clicking
/// sender's display name, the chosen payload when the channel carries one,
/// and the originating message when it is still resolvable.
pub struct ChoiceEvent {
    pub id: String,
    pub from_name: String,
    pub data: Option<String>,
    pub message: Option<MessageRef>,
}

/// What handling a choice event asks of the channel: one acknowledgement,
/// at most one edit, at most one log line.
pub struct CallbackResponse {
    pub ack_id: String,
    pub edit: Option<(MessageRef, String)>,
    pub log: Option<String>,
}

/// The text an edited message shows: who clicked what.
pub open spec fn click_text(name: Seq<char>, data: Seq<char>) -> Seq<char> {
    name + " click "@ + data
}

/// Handle one choice event.  The event is acknowledged exactly once.  A
/// carried payload with a resolvable originating message yields exactly one
/// edit showing the sender's display name and the chosen payload; with no
/// resolvable message the payload is only logged; no payload, no output.
pub fn handle_callback(ev: ChoiceEvent) -> (r: CallbackResponse)
    ensures
        r.ack_id@ == ev.id@,
        r.edit is Some <==> (ev.data is Some && ev.message is Some),
        r.edit is Some ==> r.edit.unwrap().0 == ev.message.unwrap() && r.edit.unwrap().1@
            == click_text(ev.from_name@, ev.data.unwrap()@),
        r.log is Some <==> (ev.data is Some && ev.message is None),
        r.log is Some ==> r.log.unwrap()@ == ev.data.unwrap()@,
{
    let ChoiceEvent { id, from_name, data, message } = ev;
    match (data, message) {
        (Some(d), Some(mr)) => {
            let mut text = from_name;
            text.append(" click ");
            text.append(d.as_str());
            CallbackResponse { ack_id: id, edit: Some((mr, text)), log: None }
        },
        (Some(d), None) => CallbackResponse { ack_id: id, edit: None, log: Some(d) },
        (None, _) => CallbackResponse { ack_id: id, edit: None, log: None },
    }
}

} // verus!
