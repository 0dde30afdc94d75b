use db_remember_bot::callback::handle_callback;
use db_remember_bot::callback::ChoiceEvent;
use db_remember_bot::callback::MessageRef;
use db_remember_bot::keyboard::battle_keyboard;
use db_remember_bot::state::State;
use db_remember_bot::store::MemStore;

#[test]
fn battle_keyboard_is_a_3x3_grid_labeled_0_to_8() {
    let kb = battle_keyboard();
    assert_eq!(kb.len(), 3);
    let mut n = 0;
    for row in &kb {
        assert_eq!(row.len(), 3);
        for cell in row {
            assert_eq!(cell.label, n.to_string());
            assert_eq!(cell.payload, n.to_string());
            n += 1;
        }
    }
    assert_eq!(n, 9);
}

#[test]
fn callback_with_resolvable_message_acknowledges_and_edits_once() {
    let ev = ChoiceEvent {
        id: "cb17".to_string(),
        from_name: "Alice Doe".to_string(),
        data: Some("4".to_string()),
        message: Some(MessageRef { chat_id: 9, message_id: 100 }),
    };
    let r = handle_callback(ev);
    assert_eq!(r.ack_id, "cb17");
    let (target, text) = r.edit.expect("one edit is owed");
    assert_eq!(target, MessageRef { chat_id: 9, message_id: 100 });
    assert_eq!(text, "Alice Doe click 4");
    assert!(r.log.is_none());
}

#[test]
fn callback_with_unresolvable_message_only_logs() {
    let ev = ChoiceEvent {
        id: "cb18".to_string(),
        from_name: "Bob".to_string(),
        data: Some("0".to_string()),
        message: None,
    };
    let r = handle_callback(ev);
    assert_eq!(r.ack_id, "cb18");
    assert!(r.edit.is_none());
    assert_eq!(r.log.as_deref(), Some("0"));
}

#[test]
fn callback_without_payload_is_only_acknowledged() {
    let ev = ChoiceEvent {
        id: "cb19".to_string(),
        from_name: "Bob".to_string(),
        data: None,
        message: Some(MessageRef { chat_id: 9, message_id: 100 }),
    };
    let r = handle_callback(ev);
    assert_eq!(r.ack_id, "cb19");
    assert!(r.edit.is_none());
    assert!(r.log.is_none());
}

#[test]
fn store_reads_start_on_miss_and_round_trips_every_variant() {
    let mut store = MemStore::new();
    assert_eq!(store.get_or_start(77), State::Start);
    for st in [
        State::Start,
        State::GotNumber(i32::MIN),
        State::AddNumber(0),
        State::SubNumber(i32::MAX),
        State::BattlePlayer,
    ] {
        store.save(77, st);
        assert_eq!(store.get_or_start(77), st);
    }
    store.clear(77);
    assert_eq!(store.get_or_start(77), State::Start);
    // clearing a missing key is harmless
    store.clear(77);
    assert_eq!(store.get_or_start(77), State::Start);
}
