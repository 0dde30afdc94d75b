use db_remember_bot::codec::decode_state;
use db_remember_bot::codec::encode_state;
use db_remember_bot::state::State;

#[test]
fn every_variant_round_trips_losslessly() {
    for st in [
        State::Start,
        State::GotNumber(0),
        State::GotNumber(-1),
        State::GotNumber(i32::MIN),
        State::GotNumber(i32::MAX),
        State::AddNumber(123456789),
        State::SubNumber(-987654321),
        State::BattlePlayer,
    ] {
        let bytes = encode_state(&st);
        assert_eq!(decode_state(&bytes), Some(st));
    }
}

#[test]
fn record_layout_is_exact() {
    assert_eq!(encode_state(&State::Start), vec![1, 0]);
    assert_eq!(encode_state(&State::BattlePlayer), vec![1, 4]);
    // the number is biased by 2^31 and stored little-endian
    assert_eq!(encode_state(&State::GotNumber(5)), vec![1, 1, 5, 0, 0, 128]);
    assert_eq!(encode_state(&State::GotNumber(i32::MIN)), vec![1, 1, 0, 0, 0, 0]);
    assert_eq!(encode_state(&State::AddNumber(5)), vec![1, 2, 5, 0, 0, 128]);
    assert_eq!(encode_state(&State::SubNumber(5)), vec![1, 3, 5, 0, 0, 128]);
}

#[test]
fn malformed_records_are_rejected() {
    // empty, truncated header, truncated payload
    assert_eq!(decode_state(&vec![]), None);
    assert_eq!(decode_state(&vec![1]), None);
    assert_eq!(decode_state(&vec![1, 1, 5, 0]), None);
    // another version
    assert_eq!(decode_state(&vec![2, 0]), None);
    // unknown tag
    assert_eq!(decode_state(&vec![1, 9]), None);
    // payload on a payload-less tag, or trailing bytes
    assert_eq!(decode_state(&vec![1, 0, 0]), None);
    assert_eq!(decode_state(&vec![1, 1, 5, 0, 0, 128, 0]), None);
}
