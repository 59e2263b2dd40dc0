//! The six application messages and their tagged binary layout.
//!
//! Every frame starts with the envelope byte and a variant tag; the payload
//! that follows is described by [`Frame::payload`]. [`parse`] is the inverse
//! of [`Frame::encode`]: it accepts a buffer exactly when the buffer is the
//! encoding of a well-formed frame, and says which frame that is.

use crate::network_message::client_identity::ClientIdentity;
use crate::network_message::laws::lemma_parse_exact;
use crate::network_message::laws::lemma_round_trip;
use crate::network_message::message::Message;
use crate::network_message::personal_id::PersonalId;
use crate::network_message::user_join::UserJoin;
use crate::network_message::user_leave::UserLeave;
use crate::network_message::user_list::UserList;
use crate::wire::be_u16;
use crate::wire::be_u32;
use crate::wire::fits_u16;
use crate::wire::fits_u8;
use crate::wire::short_text;
use crate::wire::u16_of_be;
use crate::wire::u32_of_be;
use crate::wire::IDENTIFIER;
use vstd::prelude::*;
use vstd::utf8::*;

pub mod client_identity;
pub mod framing;
pub mod laws;
pub mod message;
pub mod personal_id;
pub mod user_join;
pub mod user_list;
pub mod user_leave;

verus! {

/// Tag of a frame that carries a client's chosen name.
pub const CLIENT_IDENTITY: u8 = 0x04;

/// Tag of a frame that lists the peers already connected.
pub const USER_LIST: u8 = 0x10;

/// Tag of a frame that announces a new peer.
pub const USER_JOIN: u8 = 0x16;

/// Tag of a frame that announces a departed peer.
pub const USER_LEAVE: u8 = 0x1A;

/// Tag of a frame that tells a peer its own id.
pub const PERSONAL_ID: u8 = 0x1F;

/// Tag of a frame that carries a chat message.
pub const MESSAGE: u8 = 0x20;

/// Why a buffer is not a frame.
#[derive(Debug, Clone, Copy, PartialEq, Eq)]
pub enum DecodeError {
    /// The buffer ends before the envelope, or before the shortest payload
    /// of its variant.
    TooShort,
    /// The first byte is not the envelope byte.
    BadIdentifier,
    /// The second byte is no known tag; it is carried along.
    UnknownVariant(u8),
    /// A length field disagrees with the bytes that follow, or a text is not
    /// well-formed UTF-8.
    Malformed,
}

/// What a message says, free of any representation.
pub enum Frame {
    /// A peer introduces itself under a display name.
    ClientIdentity { name: Seq<char> },
    /// The server tells a peer the id it was given.
    PersonalId { id: u32 },
    /// The server tells a new peer who is there: ids and names, in order.
    UserList { users: Seq<(u32, Seq<char>)> },
    /// A peer of that name was given that id and has joined.
    UserJoin { name: Seq<char>, id: u32 },
    /// The peer of that id has left.
    UserLeave { id: u32 },
    /// The peer `from` wrote `content`.
    Message { from: u32, content: Seq<char> },
}

/// One roster entry: the id, then the name as a short text.
pub open spec fn entry_bytes(user: (u32, Seq<char>)) -> Seq<u8> {
    be_u32(user.0) + short_text(user.1)
}

/// The roster entries one after the other.
pub open spec fn entries_bytes(users: Seq<(u32, Seq<char>)>) -> Seq<u8>
    decreases users.len(),
{
    if users.len() == 0 {
        Seq::empty()
    } else {
        entry_bytes(users[0]) + entries_bytes(users.drop_first())
    }
}

/// Whether every name of the roster fits a one-byte length.
pub open spec fn names_fit(users: Seq<(u32, Seq<char>)>) -> bool {
    forall|i: int| 0 <= i < users.len() ==> fits_u8(#[trigger] users[i].1)
}

impl Frame {
    /// The tag that selects this variant on the wire.
    pub open spec fn tag(self) -> u8 {
        match self {
            Frame::ClientIdentity { .. } => CLIENT_IDENTITY,
            Frame::PersonalId { .. } => PERSONAL_ID,
            Frame::UserList { .. } => USER_LIST,
            Frame::UserJoin { .. } => USER_JOIN,
            Frame::UserLeave { .. } => USER_LEAVE,
            Frame::Message { .. } => MESSAGE,
        }
    }

    /// Whether every length of the frame fits the field that announces it.
    pub open spec fn wf(self) -> bool {
        match self {
            Frame::ClientIdentity { name } => fits_u8(name),
            Frame::PersonalId { .. } => true,
            Frame::UserList { users } => users.len() <= 0xFF && names_fit(users),
            Frame::UserJoin { name, .. } => fits_u8(name),
            Frame::UserLeave { .. } => true,
            Frame::Message { content, .. } => fits_u16(content),
        }
    }

    /// The bytes that follow the tag.
    pub open spec fn payload(self) -> Seq<u8> {
        match self {
            Frame::ClientIdentity { name } => short_text(name),
            Frame::PersonalId { id } => be_u32(id),
            Frame::UserList { users } => seq![users.len() as u8] + entries_bytes(users),
            Frame::UserJoin { name, id } => short_text(name) + be_u32(id),
            Frame::UserLeave { id } => be_u32(id),
            Frame::Message { from, content } => be_u32(from) + be_u16(
                encode_utf8(content).len() as u16,
            ) + encode_utf8(content),
        }
    }

    /// The tag, then the payload: what the variant's own encoder writes.
    pub open spec fn body(self) -> Seq<u8> {
        seq![self.tag()] + self.payload()
    }

    /// The whole frame: envelope byte, tag, payload.
    pub open spec fn encode(self) -> Seq<u8> {
        seq![IDENTIFIER] + self.body()
    }
}

/// Whether `tag` selects one of the six variants.
pub open spec fn known_tag(tag: u8) -> bool {
    tag == CLIENT_IDENTITY || tag == PERSONAL_ID || tag == USER_LIST || tag == USER_JOIN || tag
        == USER_LEAVE || tag == MESSAGE
}

/// The length of the shortest payload that the variant of `tag` can have.
pub open spec fn min_payload(tag: u8) -> nat {
    if tag == CLIENT_IDENTITY || tag == USER_LIST {
        1
    } else if tag == USER_JOIN {
        5
    } else if tag == MESSAGE {
        6
    } else {
        4
    }
}

/// Reads `count` roster entries that must fill `p` exactly.
pub open spec fn parse_entries(p: Seq<u8>, count: nat) -> Option<Seq<(u32, Seq<char>)>>
    decreases count,
{
    if count == 0 {
        if p.len() == 0 {
            Some(Seq::empty())
        } else {
            None
        }
    } else if p.len() < 5 || p.len() < 5 + p[4] || !valid_utf8(p.subrange(5, 5 + p[4])) {
        None
    } else {
        match parse_entries(p.skip(5 + p[4]), (count - 1) as nat) {
            Some(rest) => Some(
                seq![(u32_of_be(p), decode_utf8(p.subrange(5, 5 + p[4])))] + rest,
            ),
            None => None,
        }
    }
}

/// The frame of variant `tag` whose payload is `p`, if there is one. Meant
/// for a `p` of at least `min_payload(tag)` bytes.
pub open spec fn read_payload(tag: u8, p: Seq<u8>) -> Option<Frame> {
    if tag == CLIENT_IDENTITY {
        if p.len() == 1 + p[0] && valid_utf8(p.skip(1)) {
            Some(Frame::ClientIdentity { name: decode_utf8(p.skip(1)) })
        } else {
            None
        }
    } else if tag == PERSONAL_ID {
        if p.len() == 4 {
            Some(Frame::PersonalId { id: u32_of_be(p) })
        } else {
            None
        }
    } else if tag == USER_LIST {
        match parse_entries(p.skip(1), p[0] as nat) {
            Some(users) => Some(Frame::UserList { users }),
            None => None,
        }
    } else if tag == USER_JOIN {
        if p.len() == 5 + p[0] && valid_utf8(p.subrange(1, 1 + p[0])) {
            Some(
                Frame::UserJoin {
                    name: decode_utf8(p.subrange(1, 1 + p[0])),
                    id: u32_of_be(p.skip(1 + p[0])),
                },
            )
        } else {
            None
        }
    } else if tag == USER_LEAVE {
        if p.len() == 4 {
            Some(Frame::UserLeave { id: u32_of_be(p) })
        } else {
            None
        }
    } else if tag == MESSAGE {
        if p.len() == 6 + u16_of_be(p.skip(4)) && valid_utf8(p.skip(6)) {
            Some(Frame::Message { from: u32_of_be(p), content: decode_utf8(p.skip(6)) })
        } else {
            None
        }
    } else {
        None
    }
}

/// Decodes the payload `p` of a frame whose tag was `tag`.
pub open spec fn parse_payload(tag: u8, p: Seq<u8>) -> Result<Frame, DecodeError> {
    if !known_tag(tag) {
        Err(DecodeError::UnknownVariant(tag))
    } else if p.len() < min_payload(tag) {
        Err(DecodeError::TooShort)
    } else {
        match read_payload(tag, p) {
            Some(frame) => Ok(frame),
            None => Err(DecodeError::Malformed),
        }
    }
}

/// Decodes a whole buffer: envelope byte, tag, payload.
pub open spec fn parse(b: Seq<u8>) -> Result<Frame, DecodeError> {
    if b.len() < 2 {
        Err(DecodeError::TooShort)
    } else if b[0] != IDENTIFIER {
        Err(DecodeError::BadIdentifier)
    } else {
        parse_payload(b[1], b.skip(2))
    }
}

/// The word by which a variant is named in diagnostics.
pub open spec fn kind_of(frame: Frame) -> Seq<char> {
    match frame {
        Frame::ClientIdentity { .. } => "ClientIdentity"@,
        Frame::PersonalId { .. } => "PersonalId"@,
        Frame::UserList { .. } => "UserList"@,
        Frame::UserJoin { .. } => "UserJoin"@,
        Frame::UserLeave { .. } => "UserLeave"@,
        Frame::Message { .. } => "Message"@,
    }
}

/// One application message, of any of the six variants.
#[derive(Debug, PartialEq)]
pub enum NetworkMessage {
    ClientIdentity(ClientIdentity),
    PersonalId(PersonalId),
    UserList(UserList),
    UserJoin(UserJoin),
    UserLeave(UserLeave),
    Message(Message),
}

impl View for NetworkMessage {
    type V = Frame;

    open spec fn view(&self) -> Frame {
        match self {
            NetworkMessage::ClientIdentity(m) => m@,
            NetworkMessage::PersonalId(m) => m@,
            NetworkMessage::UserList(m) => m@,
            NetworkMessage::UserJoin(m) => m@,
            NetworkMessage::UserLeave(m) => m@,
            NetworkMessage::Message(m) => m@,
        }
    }
}

impl Clone for NetworkMessage {
    fn clone(&self) -> (copy: Self)
        ensures
            copy@ == self@,
    {
        match self {
            NetworkMessage::ClientIdentity(m) => NetworkMessage::ClientIdentity(m.clone()),
            NetworkMessage::PersonalId(m) => NetworkMessage::PersonalId(m.clone()),
            NetworkMessage::UserList(m) => NetworkMessage::UserList(m.clone()),
            NetworkMessage::UserJoin(m) => NetworkMessage::UserJoin(m.clone()),
            NetworkMessage::UserLeave(m) => NetworkMessage::UserLeave(m.clone()),
            NetworkMessage::Message(m) => NetworkMessage::Message(m.clone()),
        }
    }
}

impl NetworkMessage {
    pub fn client_identity(name: String) -> (m: Self)
        requires
            fits_u8(name@),
        ensures
            m@ == (Frame::ClientIdentity { name: name@ }),
    {
        Self::ClientIdentity(ClientIdentity::new(name))
    }

    pub fn personal_id(id: u32) -> (m: Self)
        ensures
            m@ == (Frame::PersonalId { id }),
    {
        Self::PersonalId(PersonalId::new(id))
    }

    pub fn user_list(users: Vec<(u32, String)>) -> (m: Self)
        requires
            users@.len() <= 0xFF,
            names_fit(users.deep_view()),
        ensures
            m@ == (Frame::UserList { users: users.deep_view() }),
    {
        Self::UserList(UserList::new(users))
    }

    pub fn user_join(name: String, id: u32) -> (m: Self)
        requires
            fits_u8(name@),
        ensures
            m@ == (Frame::UserJoin { name: name@, id }),
    {
        Self::UserJoin(UserJoin::new(name, id))
    }

    pub fn user_leave(id: u32) -> (m: Self)
        ensures
            m@ == (Frame::UserLeave { id }),
    {
        Self::UserLeave(UserLeave::new(id))
    }

    pub fn message(from: u32, content: String) -> (m: Self)
        requires
            fits_u16(content@),
        ensures
            m@ == (Frame::Message { from, content: content@ }),
    {
        Self::Message(Message::new(from, content))
    }

    /// Decodes one whole frame. The buffer must hold the frame and nothing
    /// else: a buffer that is too short, or longer than its length fields
    /// say, is refused.
    pub fn from_slice(slice: &[u8]) -> (r: Result<Self, DecodeError>)
        ensures
            match r {
                Ok(m) => parse(slice@) == Ok::<Frame, DecodeError>(m@),
                Err(e) => parse(slice@) == Err::<Frame, DecodeError>(e),
            },
            r matches Ok(m) ==> m@.wf() && m@.encode() == slice@,
    {
        proof {
            if parse(slice@) is Ok {
                lemma_parse_exact(slice@);
            }
        }
        if slice.len() < 2 {
            return Err(DecodeError::TooShort);
        }
        if slice[0] != IDENTIFIER {
            return Err(DecodeError::BadIdentifier);
        }
        let tag = slice[1];
        let payload = &slice[2..slice.len()];
        if tag == ClientIdentity::ID {
            match ClientIdentity::from_slice(payload) {
                Ok(m) => Ok(Self::ClientIdentity(m)),
                Err(e) => Err(e),
            }
        } else if tag == PersonalId::ID {
            match PersonalId::from_slice(payload) {
                Ok(m) => Ok(Self::PersonalId(m)),
                Err(e) => Err(e),
            }
        } else if tag == UserList::ID {
            match UserList::from_slice(payload) {
                Ok(m) => Ok(Self::UserList(m)),
                Err(e) => Err(e),
            }
        } else if tag == UserJoin::ID {
            match UserJoin::from_slice(payload) {
                Ok(m) => Ok(Self::UserJoin(m)),
                Err(e) => Err(e),
            }
        } else if tag == UserLeave::ID {
            match UserLeave::from_slice(payload) {
                Ok(m) => Ok(Self::UserLeave(m)),
                Err(e) => Err(e),
            }
        } else if tag == Message::ID {
            match Message::from_slice(payload) {
                Ok(m) => Ok(Self::Message(m)),
                Err(e) => Err(e),
            }
        } else {
            Err(DecodeError::UnknownVariant(tag))
        }
    }

    /// Encodes the message as one whole frame, from which
    /// [`Self::from_slice`] reads the message back.
    pub fn into_vec(self) -> (out: Vec<u8>)
        ensures
            self@.wf(),
            out@ == self@.encode(),
            parse(out@) == Ok::<Frame, DecodeError>(self@),
    {
        let data = match self {
            NetworkMessage::ClientIdentity(ci) => ci.into_vec(),
            NetworkMessage::PersonalId(pi) => pi.into_vec(),
            NetworkMessage::UserList(ul) => ul.into_vec(),
            NetworkMessage::UserJoin(uj) => uj.into_vec(),
            NetworkMessage::UserLeave(ul) => ul.into_vec(),
            NetworkMessage::Message(ms) => ms.into_vec(),
        };
        let mut vec = Vec::new();
        vec.push(IDENTIFIER);
        vec.extend_from_slice(data.as_slice());
        proof {
            lemma_round_trip(self@);
        }
        vec
    }

    /// The name of the variant, for diagnostics.
    pub fn kind(&self) -> (word: &'static str)
        ensures
            word@ == kind_of(self@),
    {
        match self {
            NetworkMessage::ClientIdentity(_) => "ClientIdentity",
            NetworkMessage::PersonalId(_) => "PersonalId",
            NetworkMessage::UserList(_) => "UserList",
            NetworkMessage::UserJoin(_) => "UserJoin",
            NetworkMessage::UserLeave(_) => "UserLeave",
            NetworkMessage::Message(_) => "Message",
        }
    }
}

} // verus!
