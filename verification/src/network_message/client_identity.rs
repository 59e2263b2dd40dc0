//! The frame by which a peer introduces itself: its display name.

use crate::network_message::parse_payload;
use crate::network_message::DecodeError;
use crate::network_message::Frame;
use crate::network_message::CLIENT_IDENTITY;
use crate::wire::fits_u8;
use crate::wire::push_text;
use crate::wire::read_text;
use crate::wire::text_len;
use vstd::prelude::*;
use vstd::utf8::*;

verus! {

#[derive(Debug, PartialEq)]
pub struct ClientIdentity {
    name: String,
}

impl View for ClientIdentity {
    type V = Frame;

    open spec fn view(&self) -> Frame {
        Frame::ClientIdentity { name: self.spec_name() }
    }
}

impl Clone for ClientIdentity {
    fn clone(&self) -> (copy: Self)
        ensures
            copy@ == self@,
    {
        proof {
            use_type_invariant(self);
        }
        ClientIdentity { name: self.name.clone() }
    }
}

impl ClientIdentity {
    pub const ID: u8 = CLIENT_IDENTITY;

    #[verifier::type_invariant]
    spec fn name_fits(&self) -> bool {
        fits_u8(self.name@)
    }

    /// The name that the frame carries.
    pub closed spec fn spec_name(&self) -> Seq<char> {
        self.name@
    }

    /// A name of more than 255 bytes cannot be announced by the one-byte
    /// length of the frame, so it is not accepted.
    pub fn new(name: String) -> (m: Self)
        requires
            fits_u8(name@),
        ensures
            m@ == (Frame::ClientIdentity { name: name@ }),
    {
        Self { name }
    }

    /// Decodes the payload of a frame whose tag was [`Self::ID`].
    pub fn from_slice(slice: &[u8]) -> (r: Result<Self, DecodeError>)
        ensures
            match r {
                Ok(m) => parse_payload(Self::ID, slice@) == Ok::<Frame, DecodeError>(m@),
                Err(e) => parse_payload(Self::ID, slice@) == Err::<Frame, DecodeError>(e),
            },
    {
        let slice_len = slice.len();
        if slice_len < 1 {
            return Err(DecodeError::TooShort);
        }
        let name_len = slice[0] as usize;
        if slice_len != name_len + 1 {
            return Err(DecodeError::Malformed);
        }
        match read_text(slice, 1, slice_len) {
            Some(name) => Ok(Self { name }),
            None => Err(DecodeError::Malformed),
        }
    }

    pub fn name(&self) -> (name: &String)
        ensures
            name@ == self.spec_name(),
            fits_u8(name@),
    {
        proof {
            use_type_invariant(self);
        }
        &self.name
    }

    /// The number of bytes that [`Self::into_vec`] writes.
    pub fn msg_len(&self) -> (n: usize)
        ensures
            n == self@.body().len(),
            n == encode_utf8(self.spec_name()).len() + 2,
    {
        proof {
            use_type_invariant(self);
        }
        text_len(&self.name) + 2
    }

    /// The tag followed by the payload.
    pub fn into_vec(self) -> (out: Vec<u8>)
        ensures
            self@.wf(),
            out@ == self@.body(),
    {
        proof {
            use_type_invariant(&self);
        }
        let user_len = text_len(&self.name);
        let mut vec = Vec::with_capacity(user_len + 2);
        vec.push(Self::ID);
        vec.push(user_len as u8);
        push_text(&mut vec, &self.name);
        vec
    }
}

} // verus!
