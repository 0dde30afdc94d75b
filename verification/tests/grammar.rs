use db_remember_bot::command::Command;
use db_remember_bot::numbers::i32_text;
use db_remember_bot::numbers::parse_i32;
use db_remember_bot::numbers::u32_text;

const BOT: &str = "numbot";

#[test]
fn parses_plain_commands() {
    assert_eq!(Command::parse("/get", BOT), Some(Command::Get));
    assert_eq!(Command::parse("/reset", BOT), Some(Command::Reset));
    assert_eq!(Command::parse("/battle", BOT), Some(Command::Battle));
}

#[test]
fn command_word_is_case_insensitive() {
    assert_eq!(Command::parse("/GET", BOT), Some(Command::Get));
    assert_eq!(Command::parse("/Reset", BOT), Some(Command::Reset));
    assert_eq!(Command::parse("/BaTtLe", BOT), Some(Command::Battle));
}

#[test]
fn own_mention_is_stripped_foreign_mention_fails() {
    assert_eq!(Command::parse("/get@numbot", BOT), Some(Command::Get));
    assert_eq!(Command::parse("/add@numbot 3", BOT), Some(Command::Add("3".to_string())));
    assert_eq!(Command::parse("/get@otherbot", BOT), None);
    assert_eq!(Command::parse("/get@", BOT), None);
}

#[test]
fn add_and_sub_take_exactly_one_argument() {
    assert_eq!(Command::parse("/add 3", BOT), Some(Command::Add("3".to_string())));
    assert_eq!(Command::parse("/sub -4", BOT), Some(Command::Sub("-4".to_string())));
    assert_eq!(Command::parse("/add   7  ", BOT), Some(Command::Add("7".to_string())));
    assert_eq!(Command::parse("/add", BOT), None);
    assert_eq!(Command::parse("/add ", BOT), None);
    assert_eq!(Command::parse("/add 3 4", BOT), None);
    assert_eq!(Command::parse("/sub x y", BOT), None);
}

#[test]
fn unit_commands_take_no_argument() {
    assert_eq!(Command::parse("/get 5", BOT), None);
    assert_eq!(Command::parse("/reset now", BOT), None);
    assert_eq!(Command::parse("/get   ", BOT), Some(Command::Get));
}

#[test]
fn non_commands_fail_to_parse() {
    assert_eq!(Command::parse("", BOT), None);
    assert_eq!(Command::parse("get", BOT), None);
    assert_eq!(Command::parse(" /get", BOT), None);
    assert_eq!(Command::parse("/", BOT), None);
    assert_eq!(Command::parse("/unknown", BOT), None);
    assert_eq!(Command::parse("/getx", BOT), None);
}

#[test]
fn parses_numbers_in_the_i32_range() {
    assert_eq!(parse_i32("0"), Some(0));
    assert_eq!(parse_i32("5"), Some(5));
    assert_eq!(parse_i32("+42"), Some(42));
    assert_eq!(parse_i32("-12"), Some(-12));
    assert_eq!(parse_i32("2147483647"), Some(i32::MAX));
    assert_eq!(parse_i32("-2147483648"), Some(i32::MIN));
    assert_eq!(parse_i32("007"), Some(7));
}

#[test]
fn rejects_what_is_no_i32() {
    assert_eq!(parse_i32(""), None);
    assert_eq!(parse_i32("-"), None);
    assert_eq!(parse_i32("+"), None);
    assert_eq!(parse_i32("12a"), None);
    assert_eq!(parse_i32("1 2"), None);
    assert_eq!(parse_i32(" 5"), None);
    assert_eq!(parse_i32("2147483648"), None);
    assert_eq!(parse_i32("-2147483649"), None);
    assert_eq!(parse_i32("99999999999999999999"), None);
}

#[test]
fn renders_decimal_text() {
    assert_eq!(u32_text(0), "0");
    assert_eq!(u32_text(305), "305");
    assert_eq!(i32_text(0), "0");
    assert_eq!(i32_text(-1), "-1");
    assert_eq!(i32_text(1234567), "1234567");
    assert_eq!(i32_text(i32::MIN), "-2147483648");
    assert_eq!(i32_text(i32::MAX), "2147483647");
}

#[test]
fn printing_then_parsing_round_trips() {
    for n in [0, 1, -1, 42, -999, i32::MIN, i32::MAX] {
        assert_eq!(parse_i32(&i32_text(n)), Some(n));
    }
}
