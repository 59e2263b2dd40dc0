use protocol::client::hello;
use protocol::client::notices::notice;
use protocol::client::servers::chars_of;
use protocol::client::servers::compare;
use protocol::client::servers::compare_names;
use protocol::client::servers::order_names;
use protocol::client::servers::server_of;
use protocol::client::servers::Order;
use protocol::client::Chat;
use protocol::client::UnknownUser;
use protocol::multicast::MulticastMessage;
use protocol::network_message::NetworkMessage;
use std::cmp::Ordering;
use std::collections::HashMap;

fn me() -> String {
    String::from("Me")
}

#[test]
fn chat_starts_empty() {
    let chat = Chat::new();
    assert_eq!(chat.personal_id(), 0);
    assert_eq!(chat.users(), &HashMap::new());
    assert_eq!(chat.messages(), &Vec::new());
}

#[test]
fn chat_learns_its_id() {
    let mut chat = Chat::new();
    assert_eq!(chat.receive(&me(), NetworkMessage::personal_id(77)), Ok(()));
    assert_eq!(chat.personal_id(), 77);
    assert!(chat.messages().is_empty());
    assert!(chat.users().is_empty());
}

#[test]
fn chat_takes_in_the_roster() {
    let mut chat = Chat::new();
    let list = NetworkMessage::user_list(vec![
        (1, String::from("a")),
        (2, String::from("b")),
        (1, String::from("c")),
    ]);
    assert_eq!(chat.receive(&me(), list.clone()), Ok(()));
    let mut expected = HashMap::new();
    expected.insert(1, String::from("c"));
    expected.insert(2, String::from("b"));
    assert_eq!(chat.users(), &expected);
    assert_eq!(chat.messages(), &vec![(list, String::new())]);
}

#[test]
fn chat_follows_joins_and_leaves() {
    let mut chat = Chat::new();
    let join = NetworkMessage::user_join(String::from("Bob"), 5);
    assert_eq!(chat.receive(&me(), join.clone()), Ok(()));
    assert_eq!(chat.users().get(&5), Some(&String::from("Bob")));
    let leave = NetworkMessage::user_leave(5);
    assert_eq!(chat.receive(&me(), leave.clone()), Ok(()));
    assert!(chat.users().is_empty());
    assert_eq!(
        chat.messages(),
        &vec![(join, String::new()), (leave.clone(), String::from("Bob"))]
    );
    assert_eq!(chat.receive(&me(), leave), Err(UnknownUser(5)));
    assert_eq!(chat.messages().len(), 2);
}

#[test]
fn chat_names_the_author() {
    let mut chat = Chat::new();
    assert_eq!(chat.receive(&me(), NetworkMessage::personal_id(1)), Ok(()));
    assert_eq!(
        chat.receive(&me(), NetworkMessage::user_join(String::from("Bob"), 2)),
        Ok(())
    );
    let mine = NetworkMessage::message(1, String::from("hi"));
    let theirs = NetworkMessage::message(2, String::from("ho"));
    let nobody = NetworkMessage::message(3, String::from("boo"));
    assert_eq!(chat.receive(&me(), mine.clone()), Ok(()));
    assert_eq!(chat.receive(&me(), theirs.clone()), Ok(()));
    assert_eq!(chat.receive(&me(), nobody), Err(UnknownUser(3)));
    assert_eq!(chat.messages().len(), 3);
    assert_eq!(chat.messages()[1], (mine, String::from("Me")));
    assert_eq!(chat.messages()[2], (theirs, String::from("Bob")));
}

#[test]
fn chat_ignores_an_identity() {
    let mut chat = Chat::new();
    assert_eq!(
        chat.receive(&me(), NetworkMessage::client_identity(String::from("x"))),
        Ok(())
    );
    assert!(chat.messages().is_empty());
    assert!(chat.users().is_empty());
    assert_eq!(chat.personal_id(), 0);
}

#[test]
fn compose_a_message() {
    let mut chat = Chat::new();
    assert_eq!(chat.receive(&me(), NetworkMessage::personal_id(0x0102_0304)), Ok(()));
    assert_eq!(
        chat.compose(String::from("hey")),
        Some(vec![0x4F, 0x20, 1, 2, 3, 4, 0, 3, b'h', b'e', b'y'])
    );
    assert_eq!(chat.compose(String::new()), None);
    assert_eq!(chat.compose("x".repeat(65536)), None);
    assert_eq!(chat.compose("x".repeat(65535)).map(|frame| frame.len()), Some(8 + 65535));
}

#[test]
fn hello_introduces_the_client() {
    assert_eq!(hello(String::from("User")), Some(vec![0x4F, 0x04, 0x04, b'U', b's', b'e', b'r']));
    assert_eq!(hello(String::new()), None);
    assert_eq!(hello("x".repeat(256)), None);
    assert_eq!(hello("x".repeat(255)).map(|frame| frame.len()), Some(258));
}

#[test]
fn server_of_an_answer() {
    let answer: Vec<u8> = MulticastMessage::server_identity(String::from("Alpha"), 4000).into();
    assert_eq!(server_of(&answer), Some((String::from("Alpha"), 4000)));
    let ping: Vec<u8> = MulticastMessage::ping().into();
    assert_eq!(server_of(&ping), None);
    assert_eq!(server_of(&[]), None);
    assert_eq!(server_of(&[0x00, 0x01]), None);
    assert_eq!(server_of(&answer[..answer.len() - 1]), None);
}

#[test]
fn characters_of_a_text() {
    assert_eq!(chars_of(""), Vec::<char>::new());
    assert_eq!(chars_of("aé✓"), vec!['a', 'é', '✓']);
}

#[test]
fn compare_by_characters() {
    assert_eq!(compare(&vec![], &vec![]), Order::Equal);
    assert_eq!(compare(&vec![], &vec!['a']), Order::Less);
    assert_eq!(compare(&vec!['a'], &vec![]), Order::Greater);
    assert_eq!(compare(&vec!['a', 'b'], &vec!['a', 'c']), Order::Less);
    assert_eq!(compare(&vec!['b'], &vec!['a', 'c']), Order::Greater);
    assert_eq!(compare(&vec!['a', 'b'], &vec!['a', 'b']), Order::Equal);
    assert_eq!(compare(&vec!['a'], &vec!['a', 'b']), Order::Less);
}

#[test]
fn names_are_ordered_without_regard_to_case() {
    assert_eq!(order_names("alpha", "ALPHA"), Order::Equal);
    assert_eq!(order_names("Alpha", "beta"), Order::Less);
    assert_eq!(order_names("beta", "Alpha"), Order::Greater);
    assert_eq!(order_names("Zed", "alpha"), Order::Greater);
    assert_eq!(order_names("", ""), Order::Equal);
    assert_eq!(order_names("", "a"), Order::Less);
    assert_eq!(order_names("ab", "A"), Order::Greater);
    assert_eq!(order_names("ÉCOLE", "école"), Order::Equal);
    assert_eq!(compare_names("alpha", "ALPHA"), Ordering::Equal);
    assert_eq!(compare_names("Alpha", "beta"), Ordering::Less);
    assert_eq!(compare_names("beta", "Alpha"), Ordering::Greater);
}

#[test]
fn names_sort_as_a_list() {
    let mut names = vec!["delta", "Bravo", "alpha", "Charlie", "ALPHA"];
    names.sort_by(|l, r| compare_names(l, r));
    assert_eq!(names, vec!["alpha", "ALPHA", "Bravo", "Charlie", "delta"]);
}

#[test]
fn notice_of_the_roster() {
    let none = String::new();
    assert_eq!(notice(&NetworkMessage::user_list(vec![]), &none), None);
    assert_eq!(
        notice(&NetworkMessage::user_list(vec![(1, String::from("A"))]), &none),
        Some(String::from("Join a server with A"))
    );
    assert_eq!(
        notice(
            &NetworkMessage::user_list(vec![(1, String::from("A")), (2, String::from("B"))]),
            &none
        ),
        Some(String::from("Join a server with A and B."))
    );
    assert_eq!(
        notice(
            &NetworkMessage::user_list(vec![
                (1, String::from("A")),
                (2, String::from("B")),
                (3, String::from("C")),
                (4, String::from("D"))
            ]),
            &none
        ),
        Some(String::from("Join a server with A, B, C and D."))
    );
}

#[test]
fn notice_of_coming_and_going() {
    assert_eq!(
        notice(&NetworkMessage::user_join(String::from("Bob"), 1), &String::new()),
        Some(String::from("Bob joined the server"))
    );
    assert_eq!(
        notice(&NetworkMessage::user_leave(1), &String::from("Bob")),
        Some(String::from("Bob left the server"))
    );
    assert_eq!(notice(&NetworkMessage::message(1, String::from("hi")), &String::from("Bob")), None);
    assert_eq!(notice(&NetworkMessage::personal_id(1), &String::new()), None);
    assert_eq!(notice(&NetworkMessage::client_identity(String::from("x")), &String::new()), None);
}
