//! What holds between [`Frame::encode`] and [`parse`]: each undoes the other,
//! and a buffer that ends too early is refused for its length.

use crate::network_message::entries_bytes;
use crate::network_message::known_tag;
use crate::network_message::min_payload;
use crate::network_message::names_fit;
use crate::network_message::parse;
use crate::network_message::parse_entries;
use crate::network_message::DecodeError;
use crate::network_message::Frame;
use crate::wire::fits_u8;
use crate::wire::lemma_be_u16_read_back;
use crate::wire::lemma_be_u16_write_back;
use crate::wire::lemma_be_u32_read_back;
use crate::wire::lemma_be_u32_write_back;
use crate::wire::lemma_short_text;
use crate::wire::IDENTIFIER;
use vstd::prelude::*;
use vstd::utf8::*;

verus! {

/// Reading the entries written for a roster gives the roster back.
proof fn lemma_entries_round_trip(users: Seq<(u32, Seq<char>)>)
    requires
        names_fit(users),
    ensures
        parse_entries(entries_bytes(users), users.len()) == Some(users),
    decreases users.len(),
{
    if users.len() > 0 {
        let id = users[0].0;
        let name = users[0].1;
        let rest = users.drop_first();
        let p = entries_bytes(users);
        let n = encode_utf8(name).len() as int;
        lemma_short_text(name);
        lemma_be_u32_read_back(id);
        assert(p.subrange(5, 5 + n) =~= encode_utf8(name));
        assert(p.skip(5 + n) =~= entries_bytes(rest));
        assert forall|i: int| 0 <= i < rest.len() implies fits_u8(#[trigger] rest[i].1) by {}
        lemma_entries_round_trip(rest);
    }
}

/// Whatever is read as a roster was written as that roster: the count is
/// met, every name fits, and the bytes are those of the entries.
proof fn lemma_entries_exact(p: Seq<u8>, count: nat)
    requires
        parse_entries(p, count) is Some,
    ensures
        parse_entries(p, count)->Some_0.len() == count,
        names_fit(parse_entries(p, count)->Some_0),
        entries_bytes(parse_entries(p, count)->Some_0) == p,
    decreases count,
{
    if count > 0 {
        let users = parse_entries(p, count)->Some_0;
        let n = p[4] as int;
        let tail = p.skip(5 + n);
        lemma_entries_exact(tail, (count - 1) as nat);
        let rest = parse_entries(tail, (count - 1) as nat)->Some_0;
        assert(users.drop_first() =~= rest);
        decode_utf8_encode_utf8(p.subrange(5, 5 + n));
        lemma_be_u32_write_back(p.subrange(0, 4));
        assert forall|i: int| 0 <= i < users.len() implies fits_u8(#[trigger] users[i].1) by {}
    }
}

/// Decoding undoes encoding: a frame whose lengths fit is read back, whole
/// and unchanged, from the bytes written for it.
pub proof fn lemma_round_trip(frame: Frame)
    requires
        frame.wf(),
    ensures
        parse(frame.encode()) == Ok::<Frame, DecodeError>(frame),
{
    let b = frame.encode();
    let p = frame.payload();
    assert(b.skip(2) =~= p);
    match frame {
        Frame::ClientIdentity { name } => {
            lemma_short_text(name);
        },
        Frame::PersonalId { id } => {
            lemma_be_u32_read_back(id);
        },
        Frame::UserList { users } => {
            lemma_entries_round_trip(users);
            assert(p.skip(1) =~= entries_bytes(users));
        },
        Frame::UserJoin { name, id } => {
            lemma_short_text(name);
            lemma_be_u32_read_back(id);
            let n = encode_utf8(name).len() as int;
            assert(p.subrange(1, 1 + n) =~= encode_utf8(name));
        },
        Frame::UserLeave { id } => {
            lemma_be_u32_read_back(id);
        },
        Frame::Message { from, content } => {
            let n = encode_utf8(content).len() as u16;
            lemma_be_u32_read_back(from);
            lemma_be_u16_read_back(n);
            encode_utf8_valid_utf8(content);
            encode_utf8_decode_utf8(content);
            assert(p.skip(6) =~= encode_utf8(content));
        },
    }
}

/// Encoding undoes decoding: a buffer that is accepted is, byte for byte,
/// the encoding of the frame read from it, and that frame's lengths fit.
/// So nothing in an accepted buffer is skipped, and nothing is made up.
pub proof fn lemma_parse_exact(b: Seq<u8>)
    requires
        parse(b) is Ok,
    ensures
        parse(b)->Ok_0.wf(),
        parse(b)->Ok_0.encode() == b,
{
    let p = b.skip(2);
    match parse(b)->Ok_0 {
        Frame::ClientIdentity { name } => {
            decode_utf8_encode_utf8(p.skip(1));
        },
        Frame::PersonalId { id } => {
            lemma_be_u32_write_back(p);
        },
        Frame::UserList { users } => {
            lemma_entries_exact(p.skip(1), p[0] as nat);
        },
        Frame::UserJoin { name, id } => {
            let n = p[0] as int;
            decode_utf8_encode_utf8(p.subrange(1, 1 + n));
            lemma_be_u32_write_back(p.skip(1 + n));
        },
        Frame::UserLeave { id } => {
            lemma_be_u32_write_back(p);
        },
        Frame::Message { from, content } => {
            decode_utf8_encode_utf8(p.skip(6));
            lemma_be_u32_write_back(p.subrange(0, 4));
            lemma_be_u16_write_back(p.subrange(4, 6));
        },
    }
}

/// A buffer that ends before the envelope is complete, or whose payload is
/// shorter than the shortest payload of its variant, is refused as too
/// short, and for no other reason is a buffer called too short.
pub proof fn lemma_too_short(b: Seq<u8>)
    ensures
        parse(b) == Err::<Frame, DecodeError>(DecodeError::TooShort) <==> b.len() < 2 || (b[0]
            == IDENTIFIER && known_tag(b[1]) && b.len() - 2 < min_payload(b[1])),
{
}

/// The other refusals, each with the buffers on which it is given: a wrong
/// first byte, an unknown tag (which is handed back), and a payload of
/// sufficient length that no frame of the variant has.
pub proof fn lemma_refusals(b: Seq<u8>)
    requires
        b.len() >= 2,
    ensures
        parse(b) == Err::<Frame, DecodeError>(DecodeError::BadIdentifier) <==> b[0]
            != IDENTIFIER,
        forall|tag: u8|
            parse(b) == Err::<Frame, DecodeError>(DecodeError::UnknownVariant(tag)) <==> b[0]
                == IDENTIFIER && !known_tag(b[1]) && tag == b[1],
        parse(b) == Err::<Frame, DecodeError>(DecodeError::Malformed) <==> b[0] == IDENTIFIER
            && known_tag(b[1]) && b.len() - 2 >= min_payload(b[1]) && !(exists|frame: Frame|
            frame.wf() && #[trigger] frame.encode() == b),
{
    if parse(b) is Ok {
        lemma_parse_exact(b);
    }
    if exists|frame: Frame| frame.wf() && #[trigger] frame.encode() == b {
        let frame = choose|frame: Frame| frame.wf() && #[trigger] frame.encode() == b;
        lemma_round_trip(frame);
    }
}

} // verus!
