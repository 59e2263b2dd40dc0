use protocol::network::NetworkMessage;

#[test]
fn client_identity() {
    let slice = &[0x4F, 0x04, 0x04, b'U', b's', b'e', b'r'];
    let msg = NetworkMessage::from_slice(slice).unwrap();

    assert_eq!(msg, NetworkMessage::client_identity(
        String::from("User")
    ));
}

#[test]
fn message() {
    let slice = &[0x4F, 0x20, 0x5E, 0x27, 0x44, 0xD2, 0x00, 0x0C, b'H', b'e', b'l', b'l', b'o', b',', b' ', b'w', b'o', b'r', b'l', b'd'];
    let msg = NetworkMessage::from_slice(slice).unwrap();

    assert_eq!(msg, NetworkMessage::message(
        1_579_631_826,
        String::from("Hello, world")
    ));
}

#[test]
fn personal_id() {
    let slice = &[0x4F, 0x1F, 0xD4, 0x25, 0x97, 0xE0];
    let msg = NetworkMessage::from_slice(slice).unwrap();

    assert_eq!(msg, NetworkMessage::personal_id(3_559_233_504));
}

#[test]
fn user_join() {
    let slice = &[0x4F, 0x16, 0x04, b'U', b's', b'e', b'r', 0xF1, 0x58, 0xB4, 0x49];
    let msg = NetworkMessage::from_slice(slice).unwrap();

    assert_eq!(msg, NetworkMessage::user_join(
        String::from("User"),
        4_049_122_377
    ));
}

#[test]
fn user_leave() {
    let slice = &[0x4F, 0x1A, 0x41, 0xDC, 0x3E, 0xAB];
    let msg = NetworkMessage::from_slice(slice).unwrap();

    assert_eq!(msg, NetworkMessage::user_leave(
        1_104_953_003
    ));
}

#[test]
fn user_list() {
    // empty
    let slice = &[0x4F, 0x10, 0x00];
    let msg = NetworkMessage::from_slice(slice).unwrap();

    assert_eq!(msg, NetworkMessage::user_list(
        vec![]
    ));

    // len = 3
    let slice = &[0x4F, 0x10, 0x03,
        0x40, 0x00, 0x87, 0xCD, 0x06, b'U', b's', b'e', b'r', b'_', b'1',
        0x91, 0x02, 0x0D, 0x70, 0x06, b'U', b's', b'e', b'r', b'_', b'2',
        0x76, 0x54, 0xB7, 0xD2, 0x06, b'U', b's', b'e', b'r', b'_', b'3'
    ];
    let msg = NetworkMessage::from_slice(slice).unwrap();

    assert_eq!(msg, NetworkMessage::user_list(
        vec![
            (1_073_776_589, String::from("User_1")),
            (2_432_830_832, String::from("User_2")),
            (1_985_263_570, String::from("User_3"))
        ]
    ));
}
