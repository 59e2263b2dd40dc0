//! The lines by which the log tells of peers coming and going.

use crate::network_message::Frame;
use crate::network_message::NetworkMessage;
use vstd::prelude::*;
use vstd::string::*;

verus! {

/// The names of a roster that is not empty, separated by commas.
pub open spec fn commas(users: Seq<(u32, Seq<char>)>) -> Seq<char>
    decreases users.len(),
{
    if users.len() <= 1 {
        users[0].1
    } else {
        commas(users.drop_last()) + ", "@ + users.last().1
    }
}

/// The line that the log shows for a frame, if it shows one: who was
/// there on joining, who joined, who left. `shown` is the name that the
/// log keeps with the frame. Chat messages are not told of in this way,
/// and an empty roster is passed over.
pub open spec fn notice_of(frame: Frame, shown: Seq<char>) -> Option<Seq<char>> {
    match frame {
        Frame::UserList { users } => if users.len() == 0 {
            None
        } else if users.len() == 1 {
            Some("Join a server with "@ + users[0].1)
        } else {
            Some(
                "Join a server with "@ + commas(users.drop_last()) + " and "@ + users.last().1
                    + "."@,
            )
        },
        Frame::UserJoin { name, .. } => Some(name + " joined the server"@),
        Frame::UserLeave { .. } => Some(shown + " left the server"@),
        _ => None,
    }
}

/// Writes the line that the log shows for a message, if it shows one.
pub fn notice(message: &NetworkMessage, shown: &String) -> (line: Option<String>)
    ensures
        match notice_of(message@, shown@) {
            Some(text) => line matches Some(written) && written@ == text,
            None => line is None,
        },
{
    match message {
        NetworkMessage::UserList(list) => {
            let users = list.users();
            let len = users.len();
            let ghost roster = users.deep_view();
            if len == 0 {
                return None;
            }
            let mut line = String::from_str("Join a server with ");
            line.append(users[0].1.as_str());
            if len == 1 {
                return Some(line);
            }
            let mut i: usize = 1;
            while i < len - 1
                invariant
                    1 <= i <= len - 1,
                    len == users@.len(),
                    roster == users.deep_view(),
                    line@ == "Join a server with "@ + commas(roster.take(i as int)),
                decreases len - i,
            {
                line.append(", ");
                line.append(users[i].1.as_str());
                proof {
                    let seen = roster.take(i + 1);
                    assert(seen.drop_last() =~= roster.take(i as int));
                }
                i += 1;
            }
            line.append(" and ");
            line.append(users[len - 1].1.as_str());
            line.append(".");
            Some(line)
        },
        NetworkMessage::UserJoin(join) => {
            let mut line = join.name().clone();
            line.append(" joined the server");
            Some(line)
        },
        NetworkMessage::UserLeave(_) => {
            let mut line = shown.clone();
            line.append(" left the server");
            Some(line)
        },
        _ => None,
    }
}

} // verus!
