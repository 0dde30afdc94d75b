use db_remember_bot::dialogue::dispatch_message;
use db_remember_bot::dialogue::HandlerError;
use db_remember_bot::dialogue::StoreEffect;
use db_remember_bot::dispatch::handle_message_event;
use db_remember_bot::reply::Reply;
use db_remember_bot::state::State;
use db_remember_bot::store::MemStore;

const BOT: &str = "numbot";

#[test]
fn remembers_a_number_from_start() {
    let mut store = MemStore::new();
    let r = handle_message_event(&mut store, 1, "5", BOT).unwrap();
    assert_eq!(r, Reply::Remembered(5));
    assert_eq!(r.text(), "Remembered number 5. Now use /get or /reset");
    assert_eq!(store.get_or_start(1), State::GotNumber(5));
}

#[test]
fn remembers_a_negative_number() {
    let mut store = MemStore::new();
    let r = handle_message_event(&mut store, 1, "-12", BOT).unwrap();
    assert_eq!(r, Reply::Remembered(-12));
    assert_eq!(r.text(), "Remembered number -12. Now use /get or /reset");
    assert_eq!(store.get_or_start(1), State::GotNumber(-12));
}

#[test]
fn non_numeric_text_is_a_self_loop() {
    let mut store = MemStore::new();
    for _ in 0..5 {
        let r = handle_message_event(&mut store, 1, "hello there", BOT).unwrap();
        assert_eq!(r, Reply::AskNumber);
        assert_eq!(r.text(), "Please, send me a number");
        assert_eq!(store.get_or_start(1), State::Start);
    }
}

#[test]
fn get_reports_the_number_and_keeps_state() {
    for st in [State::GotNumber(7), State::AddNumber(7), State::SubNumber(7)] {
        assert_eq!(st.payload(), Some(7));
        let mut store = MemStore::new();
        store.save(4, st);
        let r = handle_message_event(&mut store, 4, "/get", BOT).unwrap();
        assert_eq!(r, Reply::YourNumber(7));
        assert_eq!(r.text(), "Here is your number: 7");
        assert_eq!(store.get_or_start(4), st);
    }
}

#[test]
fn reset_deletes_the_record() {
    let mut store = MemStore::new();
    store.save(4, State::GotNumber(9));
    let r = handle_message_event(&mut store, 4, "/reset", BOT).unwrap();
    assert_eq!(r, Reply::Resetted);
    assert_eq!(r.text(), "Number resetted");
    assert_eq!(store.get_or_start(4), State::Start);
    // a later /get behaves as from a fresh Start
    let r = handle_message_event(&mut store, 4, "/get", BOT).unwrap();
    assert_eq!(r, Reply::AskNumber);
}

#[test]
fn add_and_sub_report_the_new_value() {
    let mut store = MemStore::new();
    store.save(4, State::GotNumber(10));
    let r = handle_message_event(&mut store, 4, "/add 32", BOT).unwrap();
    assert_eq!(r, Reply::Added(42));
    assert_eq!(r.text(), "Number added, now 42");
    assert_eq!(store.get_or_start(4), State::AddNumber(42));
    let r = handle_message_event(&mut store, 4, "/sub 50", BOT).unwrap();
    assert_eq!(r, Reply::Subed(-8));
    assert_eq!(r.text(), "Number subed, now -8");
    assert_eq!(store.get_or_start(4), State::SubNumber(-8));
}

#[test]
fn add_wraps_at_i32_max() {
    let mut store = MemStore::new();
    store.save(4, State::GotNumber(i32::MAX));
    let r = handle_message_event(&mut store, 4, "/add 1", BOT).unwrap();
    assert_eq!(r, Reply::Added(i32::MIN));
    assert_eq!(r.text(), "Number added, now -2147483648");
    assert_eq!(store.get_or_start(4), State::AddNumber(i32::MIN));
}

#[test]
fn sub_wraps_at_i32_min() {
    let mut store = MemStore::new();
    store.save(4, State::GotNumber(i32::MIN));
    let r = handle_message_event(&mut store, 4, "/sub 1", BOT).unwrap();
    assert_eq!(r, Reply::Subed(i32::MAX));
    assert_eq!(store.get_or_start(4), State::SubNumber(i32::MAX));
}

#[test]
fn bad_add_argument_aborts_the_event() {
    let mut store = MemStore::new();
    store.save(4, State::GotNumber(5));
    let r = handle_message_event(&mut store, 4, "/add x", BOT);
    assert_eq!(r, Err(HandlerError::BadNumberArg));
    assert_eq!(store.get_or_start(4), State::GotNumber(5));
}

#[test]
fn out_of_range_sub_argument_aborts_the_event() {
    let mut store = MemStore::new();
    store.save(4, State::GotNumber(5));
    let r = handle_message_event(&mut store, 4, "/sub 2147483648", BOT);
    assert_eq!(r, Err(HandlerError::BadNumberArg));
    assert_eq!(store.get_or_start(4), State::GotNumber(5));
}

#[test]
fn unknown_command_draws_the_fallback_reply() {
    let mut store = MemStore::new();
    store.save(4, State::GotNumber(5));
    let r = handle_message_event(&mut store, 4, "what now?", BOT).unwrap();
    assert_eq!(r, Reply::Fallback);
    assert_eq!(r.text(), "Please, send /get or /reset");
    assert_eq!(store.get_or_start(4), State::GotNumber(5));
}

#[test]
fn battle_keeps_state_and_asks_for_a_keyboard() {
    let mut store = MemStore::new();
    store.save(4, State::GotNumber(5));
    let r = handle_message_event(&mut store, 4, "/battle", BOT).unwrap();
    assert_eq!(r, Reply::BattleCall);
    assert_eq!(r.text(), "Let's battle!");
    assert!(r.wants_keyboard());
    assert_eq!(store.get_or_start(4), State::GotNumber(5));
    // no other reply carries the keyboard
    assert!(!Reply::Fallback.wants_keyboard());
    assert!(!Reply::YourNumber(5).wants_keyboard());
}

#[test]
fn message_in_battle_state_aborts() {
    let r = dispatch_message(State::BattlePlayer, "/get", BOT);
    assert_eq!(r, Err(HandlerError::NoPayload));
}

#[test]
fn start_handler_effects() {
    let r = dispatch_message(State::Start, "17", BOT).unwrap();
    assert_eq!(r, (StoreEffect::Save(State::GotNumber(17)), Reply::Remembered(17)));
    let r = dispatch_message(State::Start, "/get", BOT).unwrap();
    assert_eq!(r, (StoreEffect::Keep, Reply::AskNumber));
}

#[test]
fn end_to_end_scenario() {
    let mut store = MemStore::new();
    let id = 42i64;
    let r = handle_message_event(&mut store, id, "5", BOT).unwrap();
    assert!(r.text().contains("5"));
    let r = handle_message_event(&mut store, id, "/add 3", BOT).unwrap();
    assert!(r.text().contains("8"));
    assert_eq!(store.get_or_start(id), State::AddNumber(8));
    let r = handle_message_event(&mut store, id, "/sub 10", BOT).unwrap();
    assert!(r.text().contains("-2"));
    let r = handle_message_event(&mut store, id, "/reset", BOT).unwrap();
    assert_eq!(r.text(), "Number resetted");
    let r = handle_message_event(&mut store, id, "/get", BOT).unwrap();
    assert_eq!(r, Reply::AskNumber);
    assert_eq!(store.get_or_start(id), State::Start);
}

#[test]
fn back_to_back_events_apply_in_submission_order() {
    let mut store = MemStore::new();
    let id = 8i64;
    handle_message_event(&mut store, id, "1", BOT).unwrap();
    handle_message_event(&mut store, id, "/add 2", BOT).unwrap();
    // equals the sequential application: 1 then +2
    let mut seq_store = MemStore::new();
    handle_message_event(&mut seq_store, id, "1", BOT).unwrap();
    assert_eq!(seq_store.get_or_start(id), State::GotNumber(1));
    handle_message_event(&mut seq_store, id, "/add 2", BOT).unwrap();
    assert_eq!(store.get_or_start(id), seq_store.get_or_start(id));
    assert_eq!(store.get_or_start(id), State::AddNumber(3));
}

#[test]
fn conversations_are_scoped_per_key() {
    let mut store = MemStore::new();
    handle_message_event(&mut store, 1, "100", BOT).unwrap();
    handle_message_event(&mut store, 2, "200", BOT).unwrap();
    handle_message_event(&mut store, 1, "/reset", BOT).unwrap();
    assert_eq!(store.get_or_start(1), State::Start);
    assert_eq!(store.get_or_start(2), State::GotNumber(200));
}
