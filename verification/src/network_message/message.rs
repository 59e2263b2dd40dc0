//! The frame that carries what a peer wrote.

use crate::network_message::parse_payload;
use crate::network_message::DecodeError;
use crate::network_message::Frame;
use crate::network_message::MESSAGE;
use crate::wire::fits_u16;
use crate::wire::push_text;
use crate::wire::push_u16;
use crate::wire::push_u32;
use crate::wire::read_text;
use crate::wire::read_u16;
use crate::wire::read_u32;
use crate::wire::text_len;
use vstd::prelude::*;
use vstd::utf8::*;

verus! {

#[derive(Debug, PartialEq)]
pub struct Message {
    from: u32,
    content: String,
}

impl View for Message {
    type V = Frame;

    open spec fn view(&self) -> Frame {
        Frame::Message { from: self.spec_from(), content: self.spec_content() }
    }
}

impl Clone for Message {
    fn clone(&self) -> (copy: Self)
        ensures
            copy@ == self@,
    {
        proof {
            use_type_invariant(self);
        }
        Message { from: self.from, content: self.content.clone() }
    }
}

impl Message {
    pub const ID: u8 = MESSAGE;

    #[verifier::type_invariant]
    spec fn content_fits(&self) -> bool {
        fits_u16(self.content@)
    }

    /// The id of the peer that wrote the message.
    pub closed spec fn spec_from(&self) -> u32 {
        self.from
    }

    /// What the peer wrote.
    pub closed spec fn spec_content(&self) -> Seq<char> {
        self.content@
    }

    /// A content of more than 65535 bytes cannot be announced by the two-byte
    /// length of the frame, so it is not accepted.
    pub fn new(from: u32, content: String) -> (m: Self)
        requires
            fits_u16(content@),
        ensures
            m@ == (Frame::Message { from, content: content@ }),
    {
        Self { from, content }
    }

    /// Decodes the payload of a frame whose tag was [`Self::ID`].
    pub fn from_slice(slice: &[u8]) -> (r: Result<Self, DecodeError>)
        ensures
            match r {
                Ok(m) => parse_payload(Self::ID, slice@) == Ok::<Frame, DecodeError>(m@),
                Err(e) => parse_payload(Self::ID, slice@) == Err::<Frame, DecodeError>(e),
            },
    {
        let slice_len = slice.len();
        if slice_len < 6 {
            return Err(DecodeError::TooShort);
        }
        let from = read_u32(slice, 0);
        let msg_len = read_u16(slice, 4);
        if slice_len - 6 != msg_len as usize {
            return Err(DecodeError::Malformed);
        }
        match read_text(slice, 6, slice_len) {
            Some(content) => Ok(Self { from, content }),
            None => Err(DecodeError::Malformed),
        }
    }

    pub fn from(&self) -> (from: u32)
        ensures
            from == self.spec_from(),
    {
        self.from
    }

    pub fn content(&self) -> (content: &String)
        ensures
            content@ == self.spec_content(),
            fits_u16(content@),
    {
        proof {
            use_type_invariant(self);
        }
        &self.content
    }

    /// The number of payload bytes: the sender, the length field and the
    /// content, without the tag.
    pub fn msg_len(&self) -> (n: usize)
        ensures
            n == self@.payload().len(),
            n == 6 + encode_utf8(self.spec_content()).len(),
    {
        proof {
            use_type_invariant(self);
        }
        6 + text_len(&self.content)
    }

    /// The tag followed by the payload.
    pub fn into_vec(self) -> (out: Vec<u8>)
        ensures
            self@.wf(),
            out@ == self@.body(),
    {
        proof {
            use_type_invariant(&self);
        }
        let content_len = text_len(&self.content);
        let mut vec = Vec::with_capacity(content_len + 7);
        vec.push(Self::ID);
        push_u32(&mut vec, self.from);
        push_u16(&mut vec, content_len as u16);
        push_text(&mut vec, &self.content);
        vec
    }
}

} // verus!
