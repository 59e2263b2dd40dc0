use protocol::network_message::framing::scan;
use protocol::network_message::framing::Scan;
use protocol::network_message::DecodeError;
use protocol::network_message::NetworkMessage;

#[test]
fn scan_of_nothing_is_incomplete() {
    assert_eq!(scan(&[]), Scan::Incomplete);
    assert_eq!(scan(&[0x4F]), Scan::Incomplete);
}

#[test]
fn scan_sees_a_wrong_start_at_once() {
    assert_eq!(scan(&[0x00]), Scan::Invalid(DecodeError::BadIdentifier));
    assert_eq!(scan(&[0x4F, 0x21]), Scan::Invalid(DecodeError::UnknownVariant(0x21)));
}

#[test]
fn scan_finds_the_end_of_each_variant() {
    let frames = vec![
        NetworkMessage::client_identity(String::from("User")).into_vec(),
        NetworkMessage::client_identity(String::new()).into_vec(),
        NetworkMessage::personal_id(77).into_vec(),
        NetworkMessage::user_list(vec![]).into_vec(),
        NetworkMessage::user_list(vec![(1, String::from("a")), (2, String::from("bc"))])
            .into_vec(),
        NetworkMessage::user_join(String::from("User"), 5).into_vec(),
        NetworkMessage::user_leave(5).into_vec(),
        NetworkMessage::message(5, String::from("hi")).into_vec(),
        NetworkMessage::message(5, String::new()).into_vec(),
    ];
    for frame in frames {
        assert_eq!(scan(&frame), Scan::Complete(frame.len()));
        let mut stream = frame.clone();
        stream.extend_from_slice(&[0x4F, 0x20, 0xAA]);
        assert_eq!(scan(&stream), Scan::Complete(frame.len()));
        for cut in 2..frame.len() {
            assert_eq!(scan(&frame[..cut]), Scan::Incomplete);
        }
    }
}

#[test]
fn scan_does_not_look_at_texts() {
    assert_eq!(scan(&[0x4F, 0x04, 0x01, 0xFF, 0x00]), Scan::Complete(4));
}

#[test]
fn scan_lengths() {
    assert_eq!(scan(&[0x4F, 0x1F, 0, 0, 0, 0, 9, 9]), Scan::Complete(6));
    assert_eq!(scan(&[0x4F, 0x1A, 0, 0, 0, 0]), Scan::Complete(6));
    assert_eq!(scan(&[0x4F, 0x16, 0x01, b'a', 0, 0, 0, 0]), Scan::Complete(8));
    assert_eq!(scan(&[0x4F, 0x20, 0, 0, 0, 0, 0, 1, b'a', 9]), Scan::Complete(9));
    assert_eq!(
        scan(&[0x4F, 0x10, 0x02, 0, 0, 0, 1, 0x01, b'a', 0, 0, 0, 2, 0x00, 9]),
        Scan::Complete(14)
    );
}
