//! What a client keeps of a session: its own id, who else is there, and the
//! log of what it was told. It also writes the two frames that a client
//! sends. The modules below it read the answers to a discovery ping and
//! word the lines of the log.

use crate::network_message::Frame;
use crate::network_message::NetworkMessage;
use crate::wire::text_len;
use std::collections::HashMap;
use vstd::prelude::*;
use vstd::utf8::*;

pub mod notices;
pub mod servers;

verus! {

broadcast use vstd::std_specs::hash::group_hash_axioms;

/// A leave or a chat message named a peer that the client was never told
/// of. The id is carried along.
#[derive(Debug, Clone, Copy, PartialEq, Eq)]
pub struct UnknownUser(pub u32);

/// The model of a [`Chat`].
pub struct ChatModel {
    /// The id that the server gave to this client; 0 until it is told.
    pub personal_id: u32,
    /// The other peers, by id.
    pub users: Map<u32, Seq<char>>,
    /// What was received, oldest first, each with the name it is shown
    /// under: of a leave the one who left, of a chat message its author,
    /// and the empty text otherwise.
    pub log: Seq<(Frame, Seq<char>)>,
}

/// The peers once a roster is taken in, entry by entry, a later entry
/// replacing an earlier one of the same id.
pub open spec fn absorb(users: Map<u32, Seq<char>>, roster: Seq<(u32, Seq<char>)>) -> Map<
    u32,
    Seq<char>,
>
    decreases roster.len(),
{
    if roster.len() == 0 {
        users
    } else {
        absorb(users, roster.drop_last()).insert(roster.last().0, roster.last().1)
    }
}

/// The name under which a chat message from `from` is shown: the client's
/// own name for its own id, else the name of that peer, if it is known.
pub open spec fn author(chat: ChatModel, username: Seq<char>, from: u32) -> Option<Seq<char>> {
    if from == chat.personal_id {
        Some(username)
    } else if chat.users.contains_key(from) {
        Some(chat.users[from])
    } else {
        None
    }
}

/// The chat once a frame from the server is taken in.
pub open spec fn after(chat: ChatModel, username: Seq<char>, frame: Frame) -> Result<
    ChatModel,
    UnknownUser,
> {
    match frame {
        Frame::ClientIdentity { .. } => Ok(chat),
        Frame::PersonalId { id } => Ok(ChatModel { personal_id: id, ..chat }),
        Frame::UserList { users } => Ok(
            ChatModel {
                users: absorb(chat.users, users),
                log: chat.log.push((frame, Seq::empty())),
                ..chat
            },
        ),
        Frame::UserJoin { name, id } => Ok(
            ChatModel {
                users: chat.users.insert(id, name),
                log: chat.log.push((frame, Seq::empty())),
                ..chat
            },
        ),
        Frame::UserLeave { id } => if chat.users.contains_key(id) {
            Ok(
                ChatModel {
                    users: chat.users.remove(id),
                    log: chat.log.push((frame, chat.users[id])),
                    ..chat
                },
            )
        } else {
            Err(UnknownUser(id))
        },
        Frame::Message { from, .. } => match author(chat, username, from) {
            Some(name) => Ok(ChatModel { log: chat.log.push((frame, name)), ..chat }),
            None => Err(UnknownUser(from)),
        },
    }
}

/// The names of a map of peers.
pub open spec fn names_of(users: Map<u32, String>) -> Map<u32, Seq<char>> {
    users.map_values(|name: String| name@)
}

/// The model of a log.
pub open spec fn log_of(messages: Seq<(NetworkMessage, String)>) -> Seq<(Frame, Seq<char>)> {
    messages.map_values(|entry: (NetworkMessage, String)| (entry.0@, entry.1@))
}

/// What a client keeps of a session.
#[derive(Debug)]
pub struct Chat {
    personal_id: u32,
    users: HashMap<u32, String>,
    messages: Vec<(NetworkMessage, String)>,
}

impl View for Chat {
    type V = ChatModel;

    closed spec fn view(&self) -> ChatModel {
        ChatModel {
            personal_id: self.personal_id,
            users: names_of(self.users@),
            log: log_of(self.messages@),
        }
    }
}

impl Chat {
    /// The chat of a client that has just connected.
    pub fn new() -> (chat: Self)
        ensures
            chat@.personal_id == 0,
            chat@.users == Map::<u32, Seq<char>>::empty(),
            chat@.log == Seq::<(Frame, Seq<char>)>::empty(),
    {
        let chat = Chat {
            personal_id: 0,
            users: HashMap::new(),
            messages: Vec::with_capacity(50),
        };
        chat
    }

    pub fn personal_id(&self) -> (id: u32)
        ensures
            id == self@.personal_id,
    {
        self.personal_id
    }

    /// The other peers, by id.
    pub fn users(&self) -> (users: &HashMap<u32, String>)
        ensures
            names_of(users@) == self@.users,
    {
        &self.users
    }

    /// What was received, oldest first, each with the name it is shown
    /// under.
    pub fn messages(&self) -> (messages: &Vec<(NetworkMessage, String)>)
        ensures
            log_of(messages@) == self@.log,
    {
        &self.messages
    }

    /// Takes in a frame from the server, as [`after`] says. A leave or a
    /// chat message of a peer that is not known changes nothing and is
    /// reported.
    pub fn receive(&mut self, username: &String, message: NetworkMessage) -> (r: Result<
        (),
        UnknownUser,
    >)
        ensures
            match after(old(self)@, username@, message@) {
                Ok(next) => r is Ok && final(self)@ == next,
                Err(e) => r == Err::<(), UnknownUser>(e) && final(self)@ == old(self)@,
            },
    {
        let ghost before = self@;
        let ghost frame = message@;
        let shown: String = match &message {
            NetworkMessage::ClientIdentity(_) => {
                return Ok(());
            },
            NetworkMessage::PersonalId(pid) => {
                self.personal_id = pid.id();
                return Ok(());
            },
            NetworkMessage::UserList(list) => {
                let users = list.users();
                let ghost roster = users.deep_view();
                let mut i: usize = 0;
                while i < users.len()
                    invariant
                        i <= users@.len(),
                        roster == users.deep_view(),
                        self.personal_id == before.personal_id,
                        log_of(self.messages@) == before.log,
                        names_of(self.users@) == absorb(before.users, roster.take(i as int)),
                    decreases users@.len() - i,
                {
                    self.users.insert(users[i].0, users[i].1.clone());
                    proof {
                        let seen = roster.take(i + 1);
                        assert(seen.drop_last() =~= roster.take(i as int));
                    }
                    i += 1;
                }
                assert(roster.take(i as int) =~= roster);
                String::new()
            },
            NetworkMessage::UserJoin(join) => {
                let ghost known = self.users@;
                self.users.insert(join.id(), join.name().clone());
                assert(names_of(self.users@) =~= names_of(known).insert(
                    join.spec_id(),
                    join.spec_name(),
                ));
                String::new()
            },
            NetworkMessage::UserLeave(leave) => {
                let ghost known = self.users@;
                let id = leave.id();
                match self.users.remove(&id) {
                    Some(name) => {
                        assert(names_of(self.users@) =~= names_of(known).remove(id));
                        name
                    },
                    None => {
                        assert(self.users@ =~= known);
                        return Err(UnknownUser(id));
                    },
                }
            },
            NetworkMessage::Message(chat) => {
                let from = chat.from();
                if from == self.personal_id {
                    username.clone()
                } else {
                    match self.users.get(&from) {
                        Some(name) => name.clone(),
                        None => {
                            return Err(UnknownUser(from));
                        },
                    }
                }
            },
        };
        let ghost entry = (frame, shown@);
        self.messages.push((message, shown));
        assert(log_of(self.messages@) =~= before.log.push(entry));
        Ok(())
    }

    /// The frame by which this client says `text` to the others. Nothing
    /// is sent for an empty text, nor for one of more than 65535 bytes,
    /// which the frame could not announce.
    pub fn compose(&self, text: String) -> (frame: Option<Vec<u8>>)
        ensures
            frame is Some <==> 0 < encode_utf8(text@).len() <= 0xFFFF,
            frame matches Some(bytes) ==> bytes@ == (Frame::Message {
                from: self@.personal_id,
                content: text@,
            }).encode(),
    {
        let len = text_len(&text);
        if len == 0 || len > 0xFFFF {
            return None;
        }
        Some(NetworkMessage::message(self.personal_id, text).into_vec())
    }
}

/// The frame by which a client introduces itself under `username`. Nobody
/// joins without a name, nor with one of more than 255 bytes, which the
/// frame could not announce.
pub fn hello(username: String) -> (frame: Option<Vec<u8>>)
    ensures
        frame is Some <==> 0 < encode_utf8(username@).len() <= 0xFF,
        frame matches Some(bytes) ==> bytes@ == (Frame::ClientIdentity {
            name: username@,
        }).encode(),
{
    let len = text_len(&username);
    if len == 0 || len > 0xFF {
        return None;
    }
    Some(NetworkMessage::client_identity(username).into_vec())
}

} // verus!
