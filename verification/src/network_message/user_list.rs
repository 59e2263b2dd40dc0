//! The frame by which the server tells a new peer who is already there.

use crate::network_message::entries_bytes;
use crate::network_message::names_fit;
use crate::network_message::parse_entries;
use crate::network_message::parse_payload;
use crate::network_message::DecodeError;
use crate::network_message::Frame;
use crate::network_message::USER_LIST;
use crate::wire::fits_u8;
use crate::wire::push_text;
use crate::wire::push_u32;
use crate::wire::read_text;
use crate::wire::read_u32;
use crate::wire::text_len;
use vstd::prelude::*;
use vstd::utf8::*;

verus! {

#[derive(Debug, PartialEq)]
pub struct UserList {
    users: Vec<(u32, String)>,
}

impl View for UserList {
    type V = Frame;

    open spec fn view(&self) -> Frame {
        Frame::UserList { users: self.spec_users() }
    }
}

impl Clone for UserList {
    fn clone(&self) -> (copy: Self)
        ensures
            copy@ == self@,
    {
        proof {
            use_type_invariant(self);
        }
        let mut users: Vec<(u32, String)> = Vec::with_capacity(self.users.len());
        let mut i: usize = 0;
        while i < self.users.len()
            invariant
                i <= self.users@.len(),
                users.deep_view() == self.users.deep_view().take(i as int),
            decreases self.users@.len() - i,
        {
            let ghost before = users.deep_view();
            users.push((self.users[i].0, self.users[i].1.clone()));
            assert(self.users.deep_view().take(i + 1) =~= before.push(
                self.users.deep_view()[i as int],
            ));
            i += 1;
        }
        assert(users.deep_view() =~= self.users.deep_view());
        assert forall|k: int| 0 <= k < users@.len() implies fits_u8(#[trigger] users@[k].1@) by {
            assert(users.deep_view()[k] == self.users.deep_view()[k]);
        }
        UserList { users }
    }
}

impl UserList {
    pub const ID: u8 = USER_LIST;

    #[verifier::type_invariant]
    spec fn roster_fits(&self) -> bool {
        &&& self.users@.len() <= 0xFF
        &&& forall|i: int| 0 <= i < self.users@.len() ==> fits_u8(#[trigger] self.users@[i].1@)
    }

    /// The roster that the frame carries: ids and names, in order.
    pub closed spec fn spec_users(&self) -> Seq<(u32, Seq<char>)> {
        self.users.deep_view()
    }

    /// A roster of more than 255 entries cannot be announced by the one-byte
    /// count of the frame, nor a name of more than 255 bytes by its one-byte
    /// length, so neither is accepted.
    pub fn new(users: Vec<(u32, String)>) -> (m: Self)
        requires
            users@.len() <= 0xFF,
            names_fit(users.deep_view()),
        ensures
            m@ == (Frame::UserList { users: users.deep_view() }),
    {
        assert forall|i: int| 0 <= i < users@.len() implies fits_u8(#[trigger] users@[i].1@) by {
            assert(users.deep_view()[i].1 == users@[i].1@);
        }
        Self { users }
    }

    /// Decodes the payload of a frame whose tag was [`Self::ID`].
    pub fn from_slice(slice: &[u8]) -> (r: Result<Self, DecodeError>)
        ensures
            match r {
                Ok(m) => parse_payload(Self::ID, slice@) == Ok::<Frame, DecodeError>(m@),
                Err(e) => parse_payload(Self::ID, slice@) == Err::<Frame, DecodeError>(e),
            },
    {
        let slice_len = slice.len();
        if slice_len < 1 {
            return Err(DecodeError::TooShort);
        }
        let list_len = slice[0] as usize;
        let mut users: Vec<(u32, String)> = Vec::with_capacity(list_len);
        let mut cursor: usize = 1;
        let mut i: usize = 0;
        while i < list_len
            invariant
                slice_len == slice@.len(),
                1 <= cursor <= slice_len,
                i <= list_len == slice@[0],
                users@.len() == i,
                forall|k: int| 0 <= k < users@.len() ==> fits_u8(#[trigger] users@[k].1@),
                parse_entries(slice@.skip(1), list_len as nat) == match parse_entries(
                    slice@.skip(cursor as int),
                    (list_len - i) as nat,
                ) {
                    Some(rest) => Some(users.deep_view() + rest),
                    None => None,
                },
            decreases list_len - i,
        {
            let ghost tail = slice@.skip(cursor as int);
            if slice_len - cursor < 5 {
                return Err(DecodeError::Malformed);
            }
            let id = read_u32(slice, cursor);
            let name_len = slice[cursor + 4] as usize;
            if slice_len - cursor - 5 < name_len {
                return Err(DecodeError::Malformed);
            }
            assert(tail.subrange(5, 5 + name_len) =~= slice@.subrange(
                cursor + 5,
                cursor + 5 + name_len,
            ));
            assert(tail.skip(5 + name_len) =~= slice@.skip(cursor + 5 + name_len));
            match read_text(slice, cursor + 5, cursor + 5 + name_len) {
                None => {
                    return Err(DecodeError::Malformed);
                },
                Some(name) => {
                    users.push((id, name));
                    cursor = cursor + 5 + name_len;
                    i += 1;
                },
            }
        }
        if cursor != slice_len {
            return Err(DecodeError::Malformed);
        }
        Ok(Self { users })
    }

    pub fn users(&self) -> (users: &Vec<(u32, String)>)
        ensures
            users.deep_view() == self.spec_users(),
            self@.wf(),
    {
        proof {
            use_type_invariant(self);
            self.lemma_fits();
        }
        &self.users
    }

    /// The number of bytes that [`Self::into_vec`] writes.
    pub fn msg_len(&self) -> (n: usize)
        ensures
            n == self@.body().len(),
    {
        proof {
            use_type_invariant(self);
        }
        let ghost roster = self.users.deep_view();
        let mut total: usize = 2;
        let mut i: usize = 0;
        assert(roster.skip(0) =~= roster);
        while i < self.users.len()
            invariant
                i <= self.users@.len() <= 0xFF,
                roster == self.users.deep_view(),
                forall|k: int|
                    0 <= k < self.users@.len() ==> fits_u8(#[trigger] self.users@[k].1@),
                total <= 2 + i * 260,
                total + entries_bytes(roster.skip(i as int)).len() == 2 + entries_bytes(
                    roster,
                ).len(),
            decreases self.users@.len() - i,
        {
            assert(roster.skip(i as int).drop_first() =~= roster.skip(i + 1));
            total = total + text_len(&self.users[i].1) + 5;
            i += 1;
        }
        total
    }

    /// The tag followed by the payload.
    pub fn into_vec(self) -> (out: Vec<u8>)
        ensures
            self@.wf(),
            out@ == self@.body(),
    {
        proof {
            use_type_invariant(&self);
            self.lemma_fits();
        }
        let ghost roster = self.users.deep_view();
        let users_len = self.users.len();
        let mut vec = Vec::with_capacity(self.msg_len());
        vec.push(Self::ID);
        vec.push(users_len as u8);
        let mut i: usize = 0;
        assert(roster.skip(0) =~= roster);
        while i < users_len
            invariant
                i <= users_len == self.users@.len(),
                roster == self.users.deep_view(),
                forall|k: int|
                    0 <= k < self.users@.len() ==> fits_u8(#[trigger] self.users@[k].1@),
                vec@ + entries_bytes(roster.skip(i as int)) == self@.body(),
            decreases users_len - i,
        {
            assert(roster.skip(i as int).drop_first() =~= roster.skip(i + 1));
            push_u32(&mut vec, self.users[i].0);
            vec.push(text_len(&self.users[i].1) as u8);
            push_text(&mut vec, &self.users[i].1);
            i += 1;
        }
        vec
    }

    /// What the type keeps true of the roster, said of its model.
    proof fn lemma_fits(&self)
        requires
            self.users@.len() <= 0xFF,
            forall|i: int| 0 <= i < self.users@.len() ==> fits_u8(#[trigger] self.users@[i].1@),
        ensures
            self@.wf(),
    {
        assert forall|i: int| 0 <= i < self.spec_users().len() implies fits_u8(
            #[trigger] self.spec_users()[i].1,
        ) by {}
    }
}

} // verus!
