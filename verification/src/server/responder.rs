//! The discovery responder: a ping is answered with the identity of the
//! server, everything else is ignored.

use crate::multicast::datagram;
use crate::multicast::parse_datagram;
use crate::multicast::IntoMulticastError;
use crate::multicast::MulticastMessage;
use crate::wire::fits_u8;
use vstd::prelude::*;

verus! {

/// What a datagram on the multicast group calls for.
#[derive(Debug, PartialEq)]
pub enum Reaction {
    /// It was a ping: send these bytes back to where it came from.
    Reply(Vec<u8>),
    /// It was a discovery message, but no ping. It is ignored.
    Unexpected,
    /// It was no discovery message. It is ignored.
    Invalid(IntoMulticastError),
}

/// Answers pings on behalf of one server. Its model is the datagram that it
/// answers with.
#[derive(Debug)]
pub struct Responder {
    identity: Vec<u8>,
}

impl View for Responder {
    type V = Seq<u8>;

    closed spec fn view(&self) -> Seq<u8> {
        self.identity@
    }
}

impl Responder {
    /// A responder for the server of that name, which listens for sessions
    /// on that port. The name has to fit the one-byte length of the answer.
    pub fn new(name: String, port: u16) -> (responder: Self)
        requires
            fits_u8(name@),
        ensures
            responder@ == datagram(Some((name@, port))),
    {
        let identity: Vec<u8> = Vec::from(MulticastMessage::server_identity(name, port));
        Responder { identity }
    }

    /// Decides what a received datagram calls for. Only a ping is answered,
    /// and always with the same bytes.
    pub fn on_datagram(&self, received: &[u8]) -> (reaction: Reaction)
        ensures
            match parse_datagram(received@) {
                Ok(None) => reaction matches Reaction::Reply(bytes) && bytes@ == self@,
                Ok(Some(_)) => reaction == Reaction::Unexpected,
                Err(e) => reaction == Reaction::Invalid(e),
            },
    {
        match MulticastMessage::try_from(received) {
            Ok(message) => {
                if message.is_ping() {
                    let mut bytes: Vec<u8> = Vec::with_capacity(self.identity.len());
                    bytes.extend_from_slice(self.identity.as_slice());
                    Reaction::Reply(bytes)
                } else {
                    Reaction::Unexpected
                }
            },
            Err(e) => Reaction::Invalid(e),
        }
    }
}

} // verus!
