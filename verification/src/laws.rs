//! Laws of the dialogue, proved from the transition table, the decimal
//! grammar and the store model.

use crate::command::parse_command_spec;
use crate::command::CommandView;
use crate::dialogue::number_step;
use crate::dialogue::start_step;
use crate::dialogue::state_step;
use crate::dialogue::HandlerError;
use crate::dialogue::StoreEffect;
use crate::dispatch::message_outcome;
use crate::dispatch::run_messages;
use crate::dispatch::step_map;
use crate::numbers::int_text;
use crate::numbers::lemma_parse_int_text;
use crate::numbers::parse_i32_spec;
use crate::reply::reply_text;
use crate::reply::spec_wants_keyboard;
use crate::reply::Reply;
use crate::state::State;
use crate::store::stored_state;
use vstd::prelude::*;
use vstd::wrapping::i32_specs;

verus! {

/// From `Start`, the decimal text of any 32-bit integer moves the
/// conversation to `GotNumber` of that value, and the reply carries that
/// text.
pub proof fn lemma_start_remembers_every_i32(m: Map<i64, State>, id: i64, n: i32, bot: Seq<char>)
    requires
        stored_state(m, id) == State::Start,
    ensures
        message_outcome(m, id, int_text(n as int), bot) == Ok::<(StoreEffect, Reply), HandlerError>(
            (StoreEffect::Save(State::GotNumber(n)), Reply::Remembered(n)),
        ),
        stored_state(step_map(m, id, int_text(n as int), bot), id) == State::GotNumber(n),
        reply_text(Reply::Remembered(n)) == "Remembered number "@ + int_text(n as int)
            + ". Now use /get or /reset"@,
{
    lemma_parse_int_text(n);
}

/// Text that is no 32-bit number leaves a conversation at `Start`, however
/// often it is repeated: a whole run of such messages changes nothing, and
/// each of them only asks for a number.
pub proof fn lemma_start_non_numeric_self_loop(
    m: Map<i64, State>,
    id: i64,
    texts: Seq<Seq<char>>,
    bot: Seq<char>,
)
    requires
        stored_state(m, id) == State::Start,
        forall|i: int| 0 <= i < texts.len() ==> parse_i32_spec(#[trigger] texts[i]) is None,
    ensures
        run_messages(m, id, texts, bot) == m,
        texts.len() > 0 ==> message_outcome(m, id, texts[0], bot) == Ok::<
            (StoreEffect, Reply),
            HandlerError,
        >((StoreEffect::Keep, Reply::AskNumber)),
    decreases texts.len(),
{
    if texts.len() > 0 {
        assert(step_map(m, id, texts[0], bot) == m);
        let rest = texts.subrange(1, texts.len() as int);
        assert forall|i: int| 0 <= i < rest.len() implies parse_i32_spec(#[trigger] rest[i])
            is None by {
            assert(rest[i] == texts[i + 1]);
        }
        lemma_start_non_numeric_self_loop(m, id, rest, bot);
    }
}

/// From any payload-bearing state holding N, `/get` replies with exactly N
/// and never changes the store.
pub proof fn lemma_get_reports_and_keeps(
    m: Map<i64, State>,
    id: i64,
    n: i32,
    text: Seq<char>,
    bot: Seq<char>,
)
    requires
        stored_state(m, id).spec_payload() == Some(n),
        parse_command_spec(text, bot) == Some(CommandView::Get),
    ensures
        message_outcome(m, id, text, bot) == Ok::<(StoreEffect, Reply), HandlerError>(
            (StoreEffect::Keep, Reply::YourNumber(n)),
        ),
        step_map(m, id, text, bot) == m,
        reply_text(Reply::YourNumber(n)) == "Here is your number: "@ + int_text(n as int),
{
}

/// From any payload-bearing state, `/reset` yields `Start` and deletes the
/// persisted record: the entry is gone, the conversation reads as `Start`,
/// and every later message is handled as from a fresh `Start`.
pub proof fn lemma_reset_clears(m: Map<i64, State>, id: i64, text: Seq<char>, bot: Seq<char>)
    requires
        stored_state(m, id).is_payload_bearing(),
        parse_command_spec(text, bot) == Some(CommandView::Reset),
    ensures
        message_outcome(m, id, text, bot) == Ok::<(StoreEffect, Reply), HandlerError>(
            (StoreEffect::Clear, Reply::Resetted),
        ),
        !step_map(m, id, text, bot).contains_key(id),
        stored_state(step_map(m, id, text, bot), id) == State::Start,
        forall|later: Seq<char>|
            #[trigger] message_outcome(step_map(m, id, text, bot), id, later, bot) == Ok::<
                (StoreEffect, Reply),
                HandlerError,
            >(start_step(later)),
{
}

/// From value N, `/add K` moves to N+K and `/sub K` to N-K, both with the
/// platform's 32-bit wraparound; the new value is reported back.
pub proof fn lemma_add_sub_wrap(st: State, n: i32, text: Seq<char>, bot: Seq<char>, a: Seq<char>, k: i32)
    requires
        st.spec_payload() == Some(n),
    ensures
        parse_command_spec(text, bot) == Some(CommandView::Add(a)) && parse_i32_spec(a) == Some(k)
            ==> state_step(st, text, bot) == Ok::<(StoreEffect, Reply), HandlerError>(
            (
                StoreEffect::Save(State::AddNumber(i32_specs::wrapping_add(n, k))),
                Reply::Added(i32_specs::wrapping_add(n, k)),
            ),
        ),
        parse_command_spec(text, bot) == Some(CommandView::Sub(a)) && parse_i32_spec(a) == Some(k)
            ==> state_step(st, text, bot) == Ok::<(StoreEffect, Reply), HandlerError>(
            (
                StoreEffect::Save(State::SubNumber(i32_specs::wrapping_sub(n, k))),
                Reply::Subed(i32_specs::wrapping_sub(n, k)),
            ),
        ),
        i32::MIN <= n + k <= i32::MAX ==> i32_specs::wrapping_add(n, k) == n + k,
        n + k > i32::MAX ==> i32_specs::wrapping_add(n, k) == n + k - 0x1_0000_0000,
        n + k < i32::MIN ==> i32_specs::wrapping_add(n, k) == n + k + 0x1_0000_0000,
        i32::MIN <= n - k <= i32::MAX ==> i32_specs::wrapping_sub(n, k) == n - k,
        n - k > i32::MAX ==> i32_specs::wrapping_sub(n, k) == n - k - 0x1_0000_0000,
        n - k < i32::MIN ==> i32_specs::wrapping_sub(n, k) == n - k + 0x1_0000_0000,
{
}

/// A malformed numeric argument to `/add` or `/sub` aborts the event as a
/// hard error: no reply is owed and the store is unchanged.
pub proof fn lemma_bad_arg_aborts(
    m: Map<i64, State>,
    id: i64,
    text: Seq<char>,
    bot: Seq<char>,
    a: Seq<char>,
)
    requires
        stored_state(m, id).is_payload_bearing(),
        parse_i32_spec(a) is None,
        parse_command_spec(text, bot) == Some(CommandView::Add(a)) || parse_command_spec(text, bot)
            == Some(CommandView::Sub(a)),
    ensures
        message_outcome(m, id, text, bot) == Err::<(StoreEffect, Reply), HandlerError>(
            HandlerError::BadNumberArg,
        ),
        step_map(m, id, text, bot) == m,
{
}

/// `/battle` never changes the store; its reply is the battle call, the one
/// reply that goes out with the keyboard attached.
pub proof fn lemma_battle_keeps_state(m: Map<i64, State>, id: i64, text: Seq<char>, bot: Seq<char>)
    requires
        stored_state(m, id).is_payload_bearing(),
        parse_command_spec(text, bot) == Some(CommandView::Battle),
    ensures
        message_outcome(m, id, text, bot) == Ok::<(StoreEffect, Reply), HandlerError>(
            (StoreEffect::Keep, Reply::BattleCall),
        ),
        step_map(m, id, text, bot) == m,
        spec_wants_keyboard(Reply::BattleCall),
{
}

/// Unrecognized text in a payload-bearing state draws the fallback reply and
/// changes nothing.
pub proof fn lemma_fallback_keeps_state(m: Map<i64, State>, id: i64, text: Seq<char>, bot: Seq<char>)
    requires
        stored_state(m, id).is_payload_bearing(),
        parse_command_spec(text, bot) is None,
    ensures
        message_outcome(m, id, text, bot) == Ok::<(StoreEffect, Reply), HandlerError>(
            (StoreEffect::Keep, Reply::Fallback),
        ),
        step_map(m, id, text, bot) == m,
{
}

/// Two events for the same conversation, submitted back-to-back, are
/// observably serialized: the final store equals sequential application in
/// submission order.
pub proof fn lemma_two_events_serialize(
    m: Map<i64, State>,
    id: i64,
    t1: Seq<char>,
    t2: Seq<char>,
    bot: Seq<char>,
)
    ensures
        run_messages(m, id, seq![t1, t2], bot) == step_map(
            step_map(m, id, t1, bot),
            id,
            t2,
            bot,
        ),
{
    let m1 = step_map(m, id, t1, bot);
    assert(seq![t2].subrange(1, 1) =~= Seq::<Seq<char>>::empty());
    assert(run_messages(step_map(m1, id, t2, bot), id, seq![t2].subrange(1, 1), bot) == step_map(
        m1,
        id,
        t2,
        bot,
    ));
    assert(run_messages(m1, id, seq![t2], bot) == step_map(m1, id, t2, bot));
    assert(seq![t1, t2].subrange(1, 2) =~= seq![t2]);
}

/// The battle state is never entered: from any state a message can reach,
/// handling never saves `BattlePlayer`, so a store whose entries avoid it
/// keeps avoiding it.
pub proof fn lemma_battle_state_unreachable(m: Map<i64, State>, id: i64, text: Seq<char>, bot: Seq<char>)
    requires
        stored_state(m, id) != State::BattlePlayer,
    ensures
        stored_state(step_map(m, id, text, bot), id) != State::BattlePlayer,
{
}

} // verus!
