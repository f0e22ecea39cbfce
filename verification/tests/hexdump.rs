use rnc::hexdump::hexdump_text;
use rnc::instrument::Direction;

#[test]
fn hexdump_of_two_bytes() {
    let s = hexdump_text(Direction::Send, b"Hi");
    assert!(s.contains(">> 2 bytes"));
    assert!(s.contains("48 69"));
    let expected = format!(">> 2 bytes\n    {:<47}  Hi\n", "48 69");
    assert_eq!(s, expected);
}

#[test]
fn hexdump_receive_header() {
    let s = hexdump_text(Direction::Recv, b"Hi");
    assert!(s.starts_with("<< 2 bytes\n"));
}

#[test]
fn hexdump_empty_buffer_has_only_header() {
    assert_eq!(hexdump_text(Direction::Recv, b""), "<< 0 bytes\n");
}

#[test]
fn hexdump_splits_at_sixteen_bytes() {
    let buf: Vec<u8> = (0u8..20).collect();
    let s = hexdump_text(Direction::Send, &buf);
    let expected = ">> 20 bytes\n    00 01 02 03 04 05 06 07 08 09 0a 0b 0c 0d 0e 0f  ................\n    10 11 12 13                                      ....\n";
    assert_eq!(s, expected);
}

#[test]
fn hexdump_ascii_column_shows_printables() {
    let s = hexdump_text(Direction::Send, &[0x1f, 0x20, 0x7e, 0x7f, 0xff]);
    assert_eq!(s, format!(">> 5 bytes\n    {:<47}  . ~..\n", "1f 20 7e 7f ff"));
}
