use protocol::network_message::client_identity::ClientIdentity;
use protocol::network_message::message::Message;
use protocol::network_message::personal_id::PersonalId;
use protocol::network_message::user_join::UserJoin;
use protocol::network_message::user_leave::UserLeave;
use protocol::network_message::user_list::UserList;
use protocol::network_message::DecodeError;
use protocol::network_message::NetworkMessage;

fn round_trip(message: NetworkMessage) {
    let bytes = message.clone().into_vec();
    assert_eq!(NetworkMessage::from_slice(&bytes), Ok(message));
}

#[test]
fn round_trip_of_every_variant() {
    round_trip(NetworkMessage::client_identity(String::from("Alice")));
    round_trip(NetworkMessage::personal_id(0));
    round_trip(NetworkMessage::personal_id(u32::MAX));
    round_trip(NetworkMessage::user_list(vec![(7, String::from("Bob"))]));
    round_trip(NetworkMessage::user_join(String::from("Carol"), 0x0102_0304));
    round_trip(NetworkMessage::user_leave(0xFFFF_FFFE));
    round_trip(NetworkMessage::message(42, String::from("héllo wörld ✓")));
}

#[test]
fn round_trip_of_empty_fields() {
    round_trip(NetworkMessage::client_identity(String::new()));
    round_trip(NetworkMessage::user_list(vec![]));
    round_trip(NetworkMessage::user_list(vec![(1, String::new()), (2, String::new())]));
    round_trip(NetworkMessage::user_join(String::new(), 9));
    round_trip(NetworkMessage::message(9, String::new()));
}

#[test]
fn round_trip_of_longest_fields() {
    let name = "n".repeat(255);
    round_trip(NetworkMessage::client_identity(name.clone()));
    round_trip(NetworkMessage::user_join(name.clone(), 1));
    let users: Vec<(u32, String)> = (0..255u32).map(|id| (id, name.clone())).collect();
    round_trip(NetworkMessage::user_list(users));
    round_trip(NetworkMessage::message(1, "c".repeat(65535)));
}

#[test]
fn empty_name_is_three_bytes() {
    let bytes = NetworkMessage::client_identity(String::new()).into_vec();
    assert_eq!(bytes, vec![0x4F, 0x04, 0x00]);
    assert_eq!(
        NetworkMessage::from_slice(&[0x4F, 0x04, 0x00]),
        Ok(NetworkMessage::client_identity(String::new()))
    );
}

#[test]
fn empty_content_is_eight_bytes() {
    let bytes = NetworkMessage::message(1, String::new()).into_vec();
    assert_eq!(bytes, vec![0x4F, 0x20, 0, 0, 0, 1, 0, 0]);
    assert_eq!(
        NetworkMessage::from_slice(&bytes),
        Ok(NetworkMessage::message(1, String::new()))
    );
}

#[test]
fn longest_name_has_length_byte_255() {
    let bytes = NetworkMessage::client_identity("x".repeat(255)).into_vec();
    assert_eq!(bytes.len(), 258);
    assert_eq!(bytes[2], 0xFF);
}

#[test]
fn content_length_is_big_endian() {
    let bytes = NetworkMessage::message(0, "a".repeat(0x0102)).into_vec();
    assert_eq!(&bytes[6..8], &[0x01, 0x02]);
    assert_eq!(bytes.len(), 8 + 0x0102);
}

#[test]
fn multi_byte_text_counts_bytes() {
    let bytes = NetworkMessage::client_identity(String::from("é")).into_vec();
    assert_eq!(bytes, vec![0x4F, 0x04, 0x02, 0xC3, 0xA9]);
}

#[test]
fn envelope_too_short() {
    assert_eq!(NetworkMessage::from_slice(&[]), Err(DecodeError::TooShort));
    assert_eq!(NetworkMessage::from_slice(&[0x4F]), Err(DecodeError::TooShort));
    assert_eq!(NetworkMessage::from_slice(&[0x00]), Err(DecodeError::TooShort));
}

#[test]
fn bad_identifier() {
    assert_eq!(
        NetworkMessage::from_slice(&[0x4E, 0x1F, 0, 0, 0, 1]),
        Err(DecodeError::BadIdentifier)
    );
    assert_eq!(NetworkMessage::from_slice(&[0x00, 0xFF]), Err(DecodeError::BadIdentifier));
}

#[test]
fn unknown_variant_carries_the_tag() {
    assert_eq!(
        NetworkMessage::from_slice(&[0x4F, 0x05, 1, 2, 3]),
        Err(DecodeError::UnknownVariant(0x05))
    );
    assert_eq!(
        NetworkMessage::from_slice(&[0x4F, 0x00]),
        Err(DecodeError::UnknownVariant(0x00))
    );
    assert_eq!(
        NetworkMessage::from_slice(&[0x4F, 0xFF]),
        Err(DecodeError::UnknownVariant(0xFF))
    );
}

#[test]
fn payload_below_minimum_is_too_short() {
    assert_eq!(NetworkMessage::from_slice(&[0x4F, 0x04]), Err(DecodeError::TooShort));
    assert_eq!(NetworkMessage::from_slice(&[0x4F, 0x10]), Err(DecodeError::TooShort));
    assert_eq!(
        NetworkMessage::from_slice(&[0x4F, 0x16, 0, 0, 0, 0]),
        Err(DecodeError::TooShort)
    );
    assert_eq!(NetworkMessage::from_slice(&[0x4F, 0x1A, 1, 2, 3]), Err(DecodeError::TooShort));
    assert_eq!(NetworkMessage::from_slice(&[0x4F, 0x1F, 1, 2, 3]), Err(DecodeError::TooShort));
    assert_eq!(
        NetworkMessage::from_slice(&[0x4F, 0x20, 0, 0, 0, 1, 0]),
        Err(DecodeError::TooShort)
    );
}

#[test]
fn length_mismatch_is_malformed() {
    // name announced as 4 bytes, 3 given
    assert_eq!(
        NetworkMessage::from_slice(&[0x4F, 0x04, 0x04, b'U', b's', b'e']),
        Err(DecodeError::Malformed)
    );
    // name announced as 4 bytes, 5 given
    assert_eq!(
        NetworkMessage::from_slice(&[0x4F, 0x04, 0x04, b'U', b's', b'e', b'r', b's']),
        Err(DecodeError::Malformed)
    );
    // an id of five bytes
    assert_eq!(
        NetworkMessage::from_slice(&[0x4F, 0x1F, 1, 2, 3, 4, 5]),
        Err(DecodeError::Malformed)
    );
    assert_eq!(
        NetworkMessage::from_slice(&[0x4F, 0x1A, 1, 2, 3, 4, 5]),
        Err(DecodeError::Malformed)
    );
    // join: name announced as 2 bytes, then only 3 bytes of id
    assert_eq!(
        NetworkMessage::from_slice(&[0x4F, 0x16, 0x02, b'a', b'b', 1, 2, 3]),
        Err(DecodeError::Malformed)
    );
    // message: content announced as 2 bytes, 1 and 3 given
    assert_eq!(
        NetworkMessage::from_slice(&[0x4F, 0x20, 0, 0, 0, 1, 0, 2, b'a']),
        Err(DecodeError::Malformed)
    );
    assert_eq!(
        NetworkMessage::from_slice(&[0x4F, 0x20, 0, 0, 0, 1, 0, 2, b'a', b'b', b'c']),
        Err(DecodeError::Malformed)
    );
}

#[test]
fn user_list_must_be_consumed_exactly() {
    // one entry announced, none given
    assert_eq!(NetworkMessage::from_slice(&[0x4F, 0x10, 0x01]), Err(DecodeError::Malformed));
    // one entry announced, name cut short
    assert_eq!(
        NetworkMessage::from_slice(&[0x4F, 0x10, 0x01, 0, 0, 0, 1, 0x03, b'a', b'b']),
        Err(DecodeError::Malformed)
    );
    // no entry announced, bytes left over
    assert_eq!(
        NetworkMessage::from_slice(&[0x4F, 0x10, 0x00, 0xAA]),
        Err(DecodeError::Malformed)
    );
    // one entry announced, bytes left over behind it
    assert_eq!(
        NetworkMessage::from_slice(&[0x4F, 0x10, 0x01, 0, 0, 0, 1, 0x01, b'a', 0xAA]),
        Err(DecodeError::Malformed)
    );
}

#[test]
fn invalid_utf8_is_malformed() {
    assert_eq!(
        NetworkMessage::from_slice(&[0x4F, 0x04, 0x02, 0xC3, 0x28]),
        Err(DecodeError::Malformed)
    );
    assert_eq!(
        NetworkMessage::from_slice(&[0x4F, 0x16, 0x01, 0xFF, 0, 0, 0, 1]),
        Err(DecodeError::Malformed)
    );
    assert_eq!(
        NetworkMessage::from_slice(&[0x4F, 0x20, 0, 0, 0, 1, 0, 1, 0x80]),
        Err(DecodeError::Malformed)
    );
    assert_eq!(
        NetworkMessage::from_slice(&[0x4F, 0x10, 0x01, 0, 0, 0, 1, 0x01, 0xC0]),
        Err(DecodeError::Malformed)
    );
}

#[test]
fn every_cut_and_every_extension_is_refused() {
    let frames = vec![
        NetworkMessage::client_identity(String::from("User")).into_vec(),
        NetworkMessage::personal_id(77).into_vec(),
        NetworkMessage::user_list(vec![(1, String::from("a")), (2, String::from("bc"))])
            .into_vec(),
        NetworkMessage::user_join(String::from("User"), 5).into_vec(),
        NetworkMessage::user_leave(5).into_vec(),
        NetworkMessage::message(5, String::from("hi")).into_vec(),
    ];
    for frame in frames {
        assert!(NetworkMessage::from_slice(&frame).is_ok());
        for cut in 0..frame.len() {
            assert!(NetworkMessage::from_slice(&frame[..cut]).is_err());
        }
        let mut longer = frame.clone();
        longer.push(0);
        assert_eq!(NetworkMessage::from_slice(&longer), Err(DecodeError::Malformed));
    }
}

#[test]
fn variant_encoders_write_tag_and_payload() {
    assert_eq!(
        ClientIdentity::new(String::from("User")).into_vec(),
        vec![0x04, 0x04, b'U', b's', b'e', b'r']
    );
    assert_eq!(PersonalId::new(0xD425_97E0).into_vec(), vec![0x1F, 0xD4, 0x25, 0x97, 0xE0]);
    assert_eq!(UserLeave::new(0x41DC_3EAB).into_vec(), vec![0x1A, 0x41, 0xDC, 0x3E, 0xAB]);
    assert_eq!(
        UserJoin::new(String::from("User"), 0xF158_B449).into_vec(),
        vec![0x16, 0x04, b'U', b's', b'e', b'r', 0xF1, 0x58, 0xB4, 0x49]
    );
    assert_eq!(
        Message::new(0x5E27_44D2, String::from("Hi")).into_vec(),
        vec![0x20, 0x5E, 0x27, 0x44, 0xD2, 0x00, 0x02, b'H', b'i']
    );
    assert_eq!(
        UserList::new(vec![(0x4000_87CD, String::from("U1"))]).into_vec(),
        vec![0x10, 0x01, 0x40, 0x00, 0x87, 0xCD, 0x02, b'U', b'1']
    );
}

#[test]
fn variant_decoders_read_the_payload() {
    assert_eq!(
        ClientIdentity::from_slice(&[0x04, b'U', b's', b'e', b'r']),
        Ok(ClientIdentity::new(String::from("User")))
    );
    assert_eq!(ClientIdentity::from_slice(&[]), Err(DecodeError::TooShort));
    assert_eq!(ClientIdentity::from_slice(&[0x01]), Err(DecodeError::Malformed));
    assert_eq!(PersonalId::from_slice(&[0, 0, 1, 0]), Ok(PersonalId::new(256)));
    assert_eq!(PersonalId::from_slice(&[0, 0, 1]), Err(DecodeError::TooShort));
    assert_eq!(PersonalId::from_slice(&[0, 0, 1, 0, 0]), Err(DecodeError::Malformed));
    assert_eq!(UserLeave::from_slice(&[1, 0, 0, 0]), Ok(UserLeave::new(0x0100_0000)));
    assert_eq!(UserLeave::from_slice(&[]), Err(DecodeError::TooShort));
    assert_eq!(
        UserJoin::from_slice(&[0x01, b'z', 0, 0, 0, 3]),
        Ok(UserJoin::new(String::from("z"), 3))
    );
    assert_eq!(UserJoin::from_slice(&[0, 0, 0, 0]), Err(DecodeError::TooShort));
    assert_eq!(
        Message::from_slice(&[0, 0, 0, 9, 0, 1, b'!']),
        Ok(Message::new(9, String::from("!")))
    );
    assert_eq!(Message::from_slice(&[0, 0, 0, 9, 0]), Err(DecodeError::TooShort));
    assert_eq!(UserList::from_slice(&[0]), Ok(UserList::new(vec![])));
    assert_eq!(UserList::from_slice(&[]), Err(DecodeError::TooShort));
    assert_eq!(UserList::from_slice(&[2, 0, 0, 0, 1, 0]), Err(DecodeError::Malformed));
}

#[test]
fn getters_return_the_fields() {
    let identity = ClientIdentity::new(String::from("Ann"));
    assert_eq!(identity.name(), "Ann");
    let join = UserJoin::new(String::from("Ben"), 12);
    assert_eq!(join.name(), "Ben");
    assert_eq!(join.id(), 12);
    assert_eq!(UserLeave::new(13).id(), 13);
    assert_eq!(PersonalId::new(14).id(), 14);
    let message = Message::new(15, String::from("text"));
    assert_eq!(message.from(), 15);
    assert_eq!(message.content(), "text");
    let list = UserList::new(vec![(1, String::from("a")), (2, String::from("b"))]);
    assert_eq!(list.users(), &vec![(1, String::from("a")), (2, String::from("b"))]);
}

#[test]
fn msg_len_values() {
    assert_eq!(ClientIdentity::new(String::from("User")).msg_len(), 6);
    assert_eq!(ClientIdentity::new(String::new()).msg_len(), 2);
    assert_eq!(PersonalId::new(1).msg_len(), 5);
    assert_eq!(UserLeave::new(1).msg_len(), 5);
    assert_eq!(UserJoin::new(String::from("User"), 1).msg_len(), 10);
    assert_eq!(Message::new(1, String::from("Hello, world")).msg_len(), 18);
    assert_eq!(UserList::new(vec![]).msg_len(), 2);
    assert_eq!(
        UserList::new(vec![(1, String::from("User_1")), (2, String::from("é"))]).msg_len(),
        2 + 11 + 7
    );
}

#[test]
fn msg_len_matches_what_is_written() {
    let identity = ClientIdentity::new(String::from("somebody"));
    assert_eq!(identity.msg_len(), identity.clone().into_vec().len());
    let join = UserJoin::new(String::from("somebody"), 3);
    assert_eq!(join.msg_len(), join.clone().into_vec().len());
    let list = UserList::new(vec![(1, String::from("a")), (2, String::from("bcd"))]);
    assert_eq!(list.msg_len(), list.clone().into_vec().len());
    let message = Message::new(3, String::from("abc"));
    assert_eq!(message.msg_len() + 1, message.clone().into_vec().len());
}

#[test]
fn tags_of_the_variants() {
    assert_eq!(ClientIdentity::ID, 0x04);
    assert_eq!(UserList::ID, 0x10);
    assert_eq!(UserJoin::ID, 0x16);
    assert_eq!(UserLeave::ID, 0x1A);
    assert_eq!(PersonalId::ID, 0x1F);
    assert_eq!(Message::ID, 0x20);
}

#[test]
fn kind_names_the_variant() {
    assert_eq!(NetworkMessage::client_identity(String::new()).kind(), "ClientIdentity");
    assert_eq!(NetworkMessage::personal_id(1).kind(), "PersonalId");
    assert_eq!(NetworkMessage::user_list(vec![]).kind(), "UserList");
    assert_eq!(NetworkMessage::user_join(String::new(), 1).kind(), "UserJoin");
    assert_eq!(NetworkMessage::user_leave(1).kind(), "UserLeave");
    assert_eq!(NetworkMessage::message(1, String::new()).kind(), "Message");
}

#[test]
fn clone_is_equal() {
    let message = NetworkMessage::user_list(vec![(3, String::from("c"))]);
    assert_eq!(message.clone(), message);
    assert_ne!(message, NetworkMessage::user_list(vec![(4, String::from("c"))]));
}
