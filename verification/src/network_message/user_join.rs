//! The frame that tells the connected peers who has joined.

use crate::network_message::parse_payload;
use crate::network_message::DecodeError;
use crate::network_message::Frame;
use crate::network_message::USER_JOIN;
use crate::wire::fits_u8;
use crate::wire::push_text;
use crate::wire::push_u32;
use crate::wire::read_text;
use crate::wire::read_u32;
use crate::wire::text_len;
use vstd::prelude::*;
use vstd::utf8::*;

verus! {

#[derive(Debug, PartialEq)]
pub struct UserJoin {
    name: String,
    id: u32,
}

impl View for UserJoin {
    type V = Frame;

    open spec fn view(&self) -> Frame {
        Frame::UserJoin { name: self.spec_name(), id: self.spec_id() }
    }
}

impl Clone for UserJoin {
    fn clone(&self) -> (copy: Self)
        ensures
            copy@ == self@,
    {
        proof {
            use_type_invariant(self);
        }
        UserJoin { name: self.name.clone(), id: self.id }
    }
}

impl UserJoin {
    pub const ID: u8 = USER_JOIN;

    #[verifier::type_invariant]
    spec fn name_fits(&self) -> bool {
        fits_u8(self.name@)
    }

    /// The name of the peer that joined.
    pub closed spec fn spec_name(&self) -> Seq<char> {
        self.name@
    }

    /// The id of the peer that joined.
    pub closed spec fn spec_id(&self) -> u32 {
        self.id
    }

    /// A name of more than 255 bytes cannot be announced by the one-byte
    /// length of the frame, so it is not accepted.
    pub fn new(name: String, id: u32) -> (m: Self)
        requires
            fits_u8(name@),
        ensures
            m@ == (Frame::UserJoin { name: name@, id }),
    {
        Self { name, id }
    }

    /// Decodes the payload of a frame whose tag was [`Self::ID`].
    pub fn from_slice(slice: &[u8]) -> (r: Result<Self, DecodeError>)
        ensures
            match r {
                Ok(m) => parse_payload(Self::ID, slice@) == Ok::<Frame, DecodeError>(m@),
                Err(e) => parse_payload(Self::ID, slice@) == Err::<Frame, DecodeError>(e),
            },
    {
        let slice_len = slice.len();
        if slice_len < 5 {
            return Err(DecodeError::TooShort);
        }
        let name_len = slice[0] as usize;
        if slice_len != name_len + 5 {
            return Err(DecodeError::Malformed);
        }
        match read_text(slice, 1, 1 + name_len) {
            Some(name) => {
                let id = read_u32(slice, 1 + name_len);
                Ok(Self { name, id })
            },
            None => Err(DecodeError::Malformed),
        }
    }

    pub fn name(&self) -> (name: &String)
        ensures
            name@ == self.spec_name(),
            fits_u8(name@),
    {
        proof {
            use_type_invariant(self);
        }
        &self.name
    }

    pub fn id(&self) -> (id: u32)
        ensures
            id == self.spec_id(),
    {
        self.id
    }

    /// The number of bytes that [`Self::into_vec`] writes.
    pub fn msg_len(&self) -> (n: usize)
        ensures
            n == self@.body().len(),
            n == encode_utf8(self.spec_name()).len() + 6,
    {
        proof {
            use_type_invariant(self);
        }
        text_len(&self.name) + 6
    }

    /// The tag followed by the payload.
    pub fn into_vec(self) -> (out: Vec<u8>)
        ensures
            self@.wf(),
            out@ == self@.body(),
    {
        proof {
            use_type_invariant(&self);
        }
        let name_len = text_len(&self.name);
        let mut vec = Vec::with_capacity(name_len + 6);
        vec.push(Self::ID);
        vec.push(name_len as u8);
        push_text(&mut vec, &self.name);
        push_u32(&mut vec, self.id);
        vec
    }
}

} // verus!
