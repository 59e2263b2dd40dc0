//! The frame by which the server tells a peer the id it was given.

use crate::network_message::parse_payload;
use crate::network_message::DecodeError;
use crate::network_message::Frame;
use crate::network_message::PERSONAL_ID;
use crate::wire::push_u32;
use crate::wire::read_u32;
use vstd::prelude::*;

verus! {

#[derive(Debug, PartialEq)]
pub struct PersonalId {
    id: u32,
}

impl View for PersonalId {
    type V = Frame;

    open spec fn view(&self) -> Frame {
        Frame::PersonalId { id: self.spec_id() }
    }
}

impl Clone for PersonalId {
    fn clone(&self) -> (copy: Self)
        ensures
            copy@ == self@,
    {
        PersonalId { id: self.id }
    }
}

impl PersonalId {
    pub const ID: u8 = PERSONAL_ID;

    /// The id that the frame carries.
    pub closed spec fn spec_id(&self) -> u32 {
        self.id
    }

    pub fn new(id: u32) -> (m: Self)
        ensures
            m@ == (Frame::PersonalId { id }),
    {
        Self { id }
    }

    /// Decodes the payload of a frame whose tag was [`Self::ID`].
    pub fn from_slice(slice: &[u8]) -> (r: Result<Self, DecodeError>)
        ensures
            match r {
                Ok(m) => parse_payload(Self::ID, slice@) == Ok::<Frame, DecodeError>(m@),
                Err(e) => parse_payload(Self::ID, slice@) == Err::<Frame, DecodeError>(e),
            },
    {
        if slice.len() < 4 {
            return Err(DecodeError::TooShort);
        }
        if slice.len() != 4 {
            return Err(DecodeError::Malformed);
        }
        let id = read_u32(slice, 0);
        Ok(Self { id })
    }

    pub fn id(&self) -> (id: u32)
        ensures
            id == self.spec_id(),
    {
        self.id
    }

    /// The number of bytes that [`Self::into_vec`] writes.
    pub fn msg_len(&self) -> (n: usize)
        ensures
            n == self@.body().len(),
            n == 5,
    {
        5
    }

    /// The tag followed by the payload.
    pub fn into_vec(self) -> (out: Vec<u8>)
        ensures
            self@.wf(),
            out@ == self@.body(),
    {
        let mut vec = Vec::with_capacity(self.msg_len());
        vec.push(Self::ID);
        push_u32(&mut vec, self.id);
        vec
    }
}

} // verus!
