use rusty_roguelike::game_log::{push_decimal, push_string, push_text, GameLog};
use rusty_roguelike::{sat_add, sat_sub, saturate};

fn decimal(n: i32) -> String {
    let mut s = String::new();
    push_decimal(&mut s, n);
    s
}

#[test]
fn decimal_writes_numbers_as_to_string_does() {
    for n in [0, 1, 9, 10, 11, 99, 100, 4096, 650, -1, -10, -128, i32::MAX, i32::MIN, i32::MIN + 1] {
        assert_eq!(decimal(n), n.to_string());
    }
}

#[test]
fn decimal_appends_to_what_is_there() {
    let mut s = "hp: ".to_string();
    push_decimal(&mut s, -42);
    push_text(&mut s, " of ");
    push_string(&mut s, &"30".to_string());
    assert_eq!(s, "hp: -42 of 30");
}

#[test]
fn log_keeps_messages_in_order() {
    let mut log = GameLog::new();
    assert!(log.entries.is_empty());
    log.say("first");
    log.push("second".to_string());
    log.say("third");
    assert_eq!(log.entries, vec!["first", "second", "third"]);
}

#[test]
fn arithmetic_saturates_at_both_ends() {
    assert_eq!(sat_add(1, 2), 3);
    assert_eq!(sat_add(i32::MAX, 1), i32::MAX);
    assert_eq!(sat_add(i32::MIN, -1), i32::MIN);
    assert_eq!(sat_sub(5, 7), -2);
    assert_eq!(sat_sub(i32::MIN, 1), i32::MIN);
    assert_eq!(sat_sub(i32::MAX, -1), i32::MAX);
    assert_eq!(saturate(1 << 40), i32::MAX);
    assert_eq!(saturate(-(1 << 40)), i32::MIN);
    assert_eq!(saturate(-7), -7);
}
