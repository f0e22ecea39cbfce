use rnc::instrument::Direction;
use rnc::json::{connect_event, data_event, disconnect_event, error_event, json_escape};

#[test]
fn escape_handles_specials() {
    assert_eq!(json_escape("plain"), "plain");
    assert_eq!(json_escape("a\"b\\c"), "a\\\"b\\\\c");
    assert_eq!(json_escape("\n\r\t"), "\\n\\r\\t");
    assert_eq!(json_escape("\u{1}\u{1f}"), "\\u0001\\u001f");
    assert_eq!(json_escape("\u{7f}\u{e9}"), "\u{7f}\u{e9}");
}

#[test]
fn connect_record_format() {
    assert_eq!(
        connect_event(1700000000123, "127.0.0.1:4444"),
        r#"{"ts":1700000000123,"event":"connect","peer":"127.0.0.1:4444"}"#
    );
}

#[test]
fn disconnect_record_format() {
    assert_eq!(
        disconnect_event(0, "a\"b"),
        r#"{"ts":0,"event":"disconnect","peer":"a\"b"}"#
    );
}

#[test]
fn data_record_format() {
    assert_eq!(
        data_event(42, Direction::Recv, 8192),
        r#"{"ts":42,"event":"data","direction":"recv","bytes":8192}"#
    );
    assert_eq!(
        data_event(7, Direction::Send, 0),
        r#"{"ts":7,"event":"data","direction":"send","bytes":0}"#
    );
}

#[test]
fn error_record_is_one_line() {
    let line = error_event(5, "bad\nthing");
    assert_eq!(line, r#"{"ts":5,"event":"error","message":"bad\nthing"}"#);
    assert!(!line.contains('\n'));
}

#[test]
fn records_name_their_event() {
    assert!(connect_event(1, "p").contains(r#""event":"connect""#));
    assert!(data_event(1, Direction::Send, 3).contains(r#""event":"data""#));
    assert!(disconnect_event(1, "p").contains(r#""event":"disconnect""#));
}
