use protocol::network::MULTICAST_ADDRESS;
use protocol::network::MULTICAST_PORT;
use protocol::wire::push_text;
use protocol::wire::push_u16;
use protocol::wire::push_u32;
use protocol::wire::read_text;
use protocol::wire::read_u16;
use protocol::wire::read_u32;
use protocol::wire::text_len;
use protocol::wire::IDENTIFIER;

#[test]
fn envelope_byte() {
    assert_eq!(IDENTIFIER, 0x4F);
}

#[test]
fn discovery_constants() {
    assert_eq!(MULTICAST_ADDRESS, "233.141.56.26");
    assert_eq!(MULTICAST_PORT, 5358);
}

#[test]
fn integers_are_written_most_significant_first() {
    let mut out = vec![0xAA];
    push_u16(&mut out, 0x1234);
    push_u32(&mut out, 0xDEAD_BEEF);
    assert_eq!(out, vec![0xAA, 0x12, 0x34, 0xDE, 0xAD, 0xBE, 0xEF]);
}

#[test]
fn integers_are_read_most_significant_first() {
    let bytes = [0xAA, 0x12, 0x34, 0xDE, 0xAD, 0xBE, 0xEF];
    assert_eq!(read_u16(&bytes, 1), 0x1234);
    assert_eq!(read_u32(&bytes, 3), 0xDEAD_BEEF);
    assert_eq!(read_u16(&[0xFF, 0xFF], 0), u16::MAX);
    assert_eq!(read_u32(&[0xFF, 0xFF, 0xFF, 0xFF], 0), u32::MAX);
    assert_eq!(read_u32(&[0, 0, 0, 0], 0), 0);
}

#[test]
fn text_is_written_as_utf8() {
    let mut out = vec![1];
    push_text(&mut out, &String::from("aé"));
    assert_eq!(out, vec![1, b'a', 0xC3, 0xA9]);
    assert_eq!(text_len(&String::from("aé")), 3);
    assert_eq!(text_len(&String::new()), 0);
}

#[test]
fn text_is_read_between_two_positions() {
    let bytes = [0, b'a', 0xC3, 0xA9, 0xFF];
    assert_eq!(read_text(&bytes, 1, 4), Some(String::from("aé")));
    assert_eq!(read_text(&bytes, 1, 1), Some(String::new()));
    assert_eq!(read_text(&bytes, 1, 3), None);
    assert_eq!(read_text(&bytes, 4, 5), None);
}
