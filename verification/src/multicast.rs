//! The discovery messages exchanged over multicast: a ping, and the answer
//! by which a server gives its name and the port it listens on.

use crate::wire::be_u16;
use crate::wire::fits_u8;
use crate::wire::lemma_be_u16_read_back;
use crate::wire::lemma_be_u16_write_back;
use crate::wire::lemma_short_text;
use crate::wire::push_text;
use crate::wire::push_u16;
use crate::wire::read_text;
use crate::wire::read_u16;
use crate::wire::short_text;
use crate::wire::text_len;
use crate::wire::u16_of_be;
use crate::wire::IDENTIFIER;
use vstd::prelude::*;
use vstd::std_specs::convert::FromSpecImpl;
use vstd::std_specs::convert::TryFromSpecImpl;
use vstd::utf8::*;

verus! {

/// A discovery message. Its model is `None` for a ping, and the name and
/// port for a server identity.
#[derive(Debug, PartialEq)]
pub struct MulticastMessage {
    content: Option<(String, u16)>,
}

/// Why a datagram is not a discovery message.
#[derive(Debug, Clone, Copy, PartialEq, Eq)]
pub enum IntoMulticastError {
    /// The first byte is not the envelope byte.
    WrongStart,
    /// The datagram is empty, or it is longer than a ping and is not exactly
    /// a name of the announced length, in UTF-8, followed by a port.
    IncompleteData,
}

/// The bytes of a discovery message.
pub open spec fn datagram(content: Option<(Seq<char>, u16)>) -> Seq<u8> {
    match content {
        None => seq![IDENTIFIER],
        Some((name, port)) => seq![IDENTIFIER] + short_text(name) + be_u16(port),
    }
}

/// Whether a discovery message can be written: the server name has to fit
/// its one-byte length.
pub open spec fn encodable(content: Option<(Seq<char>, u16)>) -> bool {
    match content {
        None => true,
        Some((name, _)) => fits_u8(name),
    }
}

/// Decodes a datagram.
pub open spec fn parse_datagram(b: Seq<u8>) -> Result<
    Option<(Seq<char>, u16)>,
    IntoMulticastError,
> {
    if b.len() < 1 {
        Err(IntoMulticastError::IncompleteData)
    } else if b[0] != IDENTIFIER {
        Err(IntoMulticastError::WrongStart)
    } else if b.len() == 1 {
        Ok(None)
    } else if b.len() != 4 + b[1] || !valid_utf8(b.subrange(2, 2 + b[1])) {
        Err(IntoMulticastError::IncompleteData)
    } else {
        Ok(Some((decode_utf8(b.subrange(2, 2 + b[1])), u16_of_be(b.skip(2 + b[1])))))
    }
}

/// The word by which a discovery message is named in diagnostics.
pub open spec fn kind_of(content: Option<(Seq<char>, u16)>) -> Seq<char> {
    match content {
        None => "Ping"@,
        Some(_) => "Server identity"@,
    }
}

impl View for MulticastMessage {
    type V = Option<(Seq<char>, u16)>;

    closed spec fn view(&self) -> Option<(Seq<char>, u16)> {
        self.content.deep_view()
    }
}

impl Clone for MulticastMessage {
    fn clone(&self) -> (copy: Self)
        ensures
            copy@ == self@,
    {
        proof {
            use_type_invariant(self);
        }
        match &self.content {
            Some((name, port)) => MulticastMessage { content: Some((name.clone(), *port)) },
            None => MulticastMessage { content: None },
        }
    }
}

impl MulticastMessage {
    #[verifier::type_invariant]
    spec fn name_fits(&self) -> bool {
        match self.content {
            None => true,
            Some((name, _)) => fits_u8(name@),
        }
    }

    pub fn ping() -> (m: Self)
        ensures
            m@ is None,
    {
        Self { content: None }
    }

    /// A name of more than 255 bytes cannot be announced by the one-byte
    /// length of the datagram, so it is not accepted.
    pub fn server_identity(name: String, port: u16) -> (m: Self)
        requires
            fits_u8(name@),
        ensures
            m@ == Some((name@, port)),
    {
        Self { content: Some((name, port)) }
    }

    pub fn is_ping(&self) -> (ping: bool)
        ensures
            ping == (self@ is None),
    {
        self.content.is_none()
    }

    /// The name and port of a server identity, nothing for a ping.
    pub fn content(&self) -> (content: &Option<(String, u16)>)
        ensures
            content.deep_view() == self@,
            encodable(self@),
    {
        proof {
            use_type_invariant(self);
        }
        &self.content
    }

    /// The name of the variant, for diagnostics.
    pub fn kind(&self) -> (word: &'static str)
        ensures
            word@ == kind_of(self@),
    {
        match self.content {
            Some(_) => "Server identity",
            None => "Ping",
        }
    }
}

impl From<MulticastMessage> for Vec<u8> {
    /// Encodes the message as one datagram, from which `try_from` reads the
    /// message back.
    fn from(msg: MulticastMessage) -> (out: Vec<u8>)
        ensures
            encodable(msg@),
            out@ == datagram(msg@),
            parse_datagram(out@) == Ok::<Option<(Seq<char>, u16)>, IntoMulticastError>(msg@),
    {
        proof {
            use_type_invariant(&msg);
            lemma_datagram_round_trip(msg@);
        }
        match msg.content {
            Some((name, port)) => {
                let name_len = text_len(&name);
                let mut vec = Vec::with_capacity(name_len + 4);
                vec.push(IDENTIFIER);
                vec.push(name_len as u8);
                push_text(&mut vec, &name);
                push_u16(&mut vec, port);
                vec
            },
            None => {
                let mut vec = Vec::with_capacity(1);
                vec.push(IDENTIFIER);
                vec
            },
        }
    }
}

impl FromSpecImpl<MulticastMessage> for Vec<u8> {
    open spec fn obeys_from_spec() -> bool {
        false
    }

    open spec fn from_spec(msg: MulticastMessage) -> Vec<u8> {
        arbitrary()
    }
}

impl TryFrom<&[u8]> for MulticastMessage {
    type Error = IntoMulticastError;

    /// Decodes one datagram. It must hold the message and nothing else.
    fn try_from(bytes: &[u8]) -> (r: Result<MulticastMessage, IntoMulticastError>)
        ensures
            match r {
                Ok(m) => parse_datagram(bytes@) == Ok::<
                    Option<(Seq<char>, u16)>,
                    IntoMulticastError,
                >(m@),
                Err(e) => parse_datagram(bytes@) == Err::<
                    Option<(Seq<char>, u16)>,
                    IntoMulticastError,
                >(e),
            },
            r matches Ok(m) ==> encodable(m@) && datagram(m@) == bytes@,
    {
        proof {
            if parse_datagram(bytes@) is Ok {
                lemma_datagram_exact(bytes@);
            }
        }
        let slice_len = bytes.len();
        if slice_len < 1 {
            return Err(IntoMulticastError::IncompleteData);
        }
        if bytes[0] != IDENTIFIER {
            return Err(IntoMulticastError::WrongStart);
        }
        if slice_len == 1 {
            return Ok(MulticastMessage::ping());
        }
        let name_len = bytes[1] as usize;
        if slice_len != name_len + 4 {
            return Err(IntoMulticastError::IncompleteData);
        }
        match read_text(bytes, 2, 2 + name_len) {
            Some(name) => {
                let port = read_u16(bytes, 2 + name_len);
                Ok(MulticastMessage::server_identity(name, port))
            },
            None => Err(IntoMulticastError::IncompleteData),
        }
    }
}

impl TryFromSpecImpl<&[u8]> for MulticastMessage {
    open spec fn obeys_try_from_spec() -> bool {
        false
    }

    open spec fn try_from_spec(bytes: &[u8]) -> Result<MulticastMessage, IntoMulticastError> {
        arbitrary()
    }
}

/// Decoding undoes encoding: a discovery message that can be written is read
/// back unchanged from its datagram.
pub proof fn lemma_datagram_round_trip(content: Option<(Seq<char>, u16)>)
    requires
        encodable(content),
    ensures
        parse_datagram(datagram(content)) == Ok::<Option<(Seq<char>, u16)>, IntoMulticastError>(
            content,
        ),
{
    match content {
        None => {},
        Some((name, port)) => {
            let b = datagram(content);
            let n = encode_utf8(name).len() as int;
            lemma_short_text(name);
            lemma_be_u16_read_back(port);
            assert(b.subrange(2, 2 + n) =~= encode_utf8(name));
        },
    }
}

/// Encoding undoes decoding: a datagram that is accepted is, byte for byte,
/// the encoding of the message read from it.
pub proof fn lemma_datagram_exact(b: Seq<u8>)
    requires
        parse_datagram(b) is Ok,
    ensures
        encodable(parse_datagram(b)->Ok_0),
        datagram(parse_datagram(b)->Ok_0) == b,
{
    match parse_datagram(b)->Ok_0 {
        None => {},
        Some((name, port)) => {
            let n = b[1] as int;
            decode_utf8_encode_utf8(b.subrange(2, 2 + n));
            lemma_be_u16_write_back(b.skip(2 + n));
        },
    }
}

} // verus!
