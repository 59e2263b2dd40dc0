//! Finding frames in a byte stream. A stream gives no message boundaries of
//! its own: one read may end in the middle of a frame or hold several. The
//! length fields of a frame say where it ends, and [`scan`] reads them.

use crate::network_message::known_tag;
use crate::network_message::min_payload;
use crate::network_message::parse;
use crate::network_message::parse_entries;
use crate::network_message::DecodeError;
use crate::network_message::CLIENT_IDENTITY;
use crate::network_message::MESSAGE;
use crate::network_message::PERSONAL_ID;
use crate::network_message::USER_JOIN;
use crate::network_message::USER_LEAVE;
use crate::network_message::USER_LIST;
use crate::wire::read_u16;
use crate::wire::u16_of_be;
use crate::wire::IDENTIFIER;
use vstd::prelude::*;

verus! {

/// What the front of a stream holds.
#[derive(Debug, Clone, Copy, PartialEq, Eq)]
pub enum Scan {
    /// The bytes so far do not reach the end of the first frame.
    Incomplete,
    /// The first frame takes this many bytes, and they are all there.
    Complete(usize),
    /// No frame starts like this, whatever follows.
    Invalid(DecodeError),
}

/// The number of bytes that `count` roster entries take at the front of
/// `p`, if `p` holds them all.
pub open spec fn entries_len(p: Seq<u8>, count: nat) -> Option<nat>
    decreases count,
{
    if count == 0 {
        Some(0)
    } else if p.len() < 5 || p.len() < 5 + p[4] {
        None
    } else {
        match entries_len(p.skip(5 + p[4]), (count - 1) as nat) {
            Some(rest) => Some((5 + p[4] + rest) as nat),
            None => None,
        }
    }
}

/// The number of bytes that the payload of variant `tag` takes at the front
/// of `p`, as far as the bytes of `p` can tell.
pub open spec fn payload_len(tag: u8, p: Seq<u8>) -> Option<nat> {
    if tag == PERSONAL_ID || tag == USER_LEAVE {
        Some(4)
    } else if p.len() < min_payload(tag) {
        None
    } else if tag == CLIENT_IDENTITY {
        Some((1 + p[0]) as nat)
    } else if tag == USER_JOIN {
        Some((5 + p[0]) as nat)
    } else if tag == MESSAGE {
        Some((6 + u16_of_be(p.skip(4))) as nat)
    } else {
        match entries_len(p.skip(1), p[0] as nat) {
            Some(n) => Some(1 + n),
            None => None,
        }
    }
}

/// What the front of the stream `b` holds.
pub open spec fn spec_scan(b: Seq<u8>) -> Scan {
    if b.len() < 1 {
        Scan::Incomplete
    } else if b[0] != IDENTIFIER {
        Scan::Invalid(DecodeError::BadIdentifier)
    } else if b.len() < 2 {
        Scan::Incomplete
    } else if !known_tag(b[1]) {
        Scan::Invalid(DecodeError::UnknownVariant(b[1]))
    } else {
        match payload_len(b[1], b.skip(2)) {
            Some(n) => if 2 + n <= b.len() {
                Scan::Complete((2 + n) as usize)
            } else {
                Scan::Incomplete
            },
            None => Scan::Incomplete,
        }
    }
}

/// Says where the first frame of `buf` ends, if `buf` holds it whole. The
/// texts of the frame are not looked at: that is left to the decoder.
pub fn scan(buf: &[u8]) -> (found: Scan)
    ensures
        found == spec_scan(buf@),
        found matches Scan::Complete(n) ==> 2 <= n <= buf@.len(),
{
    let len = buf.len();
    if len < 1 {
        return Scan::Incomplete;
    }
    if buf[0] != IDENTIFIER {
        return Scan::Invalid(DecodeError::BadIdentifier);
    }
    if len < 2 {
        return Scan::Incomplete;
    }
    let tag = buf[1];
    let have = len - 2;
    if tag == PERSONAL_ID || tag == USER_LEAVE {
        return if have >= 4 {
            Scan::Complete(6)
        } else {
            Scan::Incomplete
        };
    }
    if tag == CLIENT_IDENTITY || tag == USER_JOIN {
        if have < 1 {
            return Scan::Incomplete;
        }
        if tag == USER_JOIN && have < 5 {
            return Scan::Incomplete;
        }
        let fixed: usize = if tag == USER_JOIN {
            5
        } else {
            1
        };
        let need = fixed + buf[2] as usize;
        return if have >= need {
            Scan::Complete(2 + need)
        } else {
            Scan::Incomplete
        };
    }
    if tag == MESSAGE {
        if have < 6 {
            return Scan::Incomplete;
        }
        let announced = read_u16(buf, 6);
        let need = 6 + announced as usize;
        return if have >= need {
            Scan::Complete(2 + need)
        } else {
            Scan::Incomplete
        };
    }
    if tag != USER_LIST {
        return Scan::Invalid(DecodeError::UnknownVariant(tag));
    }
    if have < 1 {
        return Scan::Incomplete;
    }
    let count = buf[2] as usize;
    let mut cursor: usize = 3;
    let mut i: usize = 0;
    while i < count
        invariant
            len == buf@.len(),
            buf@[0] == IDENTIFIER,
            buf@[1] == USER_LIST,
            buf@[2] == count,
            buf@.skip(2).skip(1) == buf@.skip(3),
            3 <= cursor <= len,
            i <= count <= 0xFF,
            cursor <= 3 + i * 260,
            entries_len(buf@.skip(3), count as nat) == match entries_len(
                buf@.skip(cursor as int),
                (count - i) as nat,
            ) {
                Some(rest) => Some((cursor - 3 + rest) as nat),
                None => None,
            },
        decreases count - i,
    {
        let ghost tail = buf@.skip(cursor as int);
        if len - cursor < 5 {
            return Scan::Incomplete;
        }
        let step = 5 + buf[cursor + 4] as usize;
        if len - cursor < step {
            return Scan::Incomplete;
        }
        assert(tail.skip(step as int) =~= buf@.skip(cursor + step));
        cursor = cursor + step;
        i += 1;
    }
    Scan::Complete(cursor)
}

/// The length of a roster that parses is the length that its entries
/// announce, and stays so whatever bytes follow.
proof fn lemma_entries_len(p: Seq<u8>, q: Seq<u8>, count: nat)
    requires
        parse_entries(p, count) is Some,
        p.is_prefix_of(q),
    ensures
        entries_len(q, count) == Some(p.len()),
    decreases count,
{
    if count > 0 {
        let step = 5 + p[4];
        lemma_entries_len(p.skip(step), q.skip(step), (count - 1) as nat);
    }
}

/// Every frame is found at the front of any stream that starts with it: if
/// the buffer `b` decodes, then a stream that begins with `b` scans as
/// complete at the length of `b`.
pub proof fn lemma_scan_finds(b: Seq<u8>, stream: Seq<u8>)
    requires
        parse(b) is Ok,
        b.is_prefix_of(stream),
        stream.len() <= usize::MAX,
    ensures
        spec_scan(stream) == Scan::Complete(b.len() as usize),
{
    if b[1] == USER_LIST {
        let p = b.skip(2);
        let q = stream.skip(2);
        lemma_entries_len(p.skip(1), q.skip(1), p[0] as nat);
    }
}

/// A frame has no slack: of two buffers that both decode, neither is a
/// proper beginning of the other. So a buffer that decodes is refused once
/// it is cut short, and once bytes are added at its end.
pub proof fn lemma_no_slack(b: Seq<u8>, c: Seq<u8>)
    requires
        parse(b) is Ok,
        b.is_prefix_of(c) || c.is_prefix_of(b),
        c.len() != b.len(),
        b.len() <= usize::MAX,
        c.len() <= usize::MAX,
    ensures
        parse(c) is Err,
{
    if parse(c) is Ok {
        if b.is_prefix_of(c) {
            lemma_scan_finds(b, c);
            lemma_scan_finds(c, c);
        } else {
            lemma_scan_finds(c, b);
            lemma_scan_finds(b, b);
        }
    }
}

/// Where the scan says that a frame is complete, it stays complete at that
/// length whatever bytes arrive later; and what has no valid start never
/// gets one.
pub proof fn lemma_scan_stable(stream: Seq<u8>, longer: Seq<u8>)
    requires
        stream.is_prefix_of(longer),
        longer.len() <= usize::MAX,
        !(spec_scan(stream) is Incomplete),
    ensures
        spec_scan(longer) == spec_scan(stream),
{
    if spec_scan(stream) is Complete && stream[1] == USER_LIST {
        let p = stream.skip(2);
        let q = longer.skip(2);
        lemma_entries_len_stable(p.skip(1), q.skip(1), p[0] as nat);
    }
}

/// The length of entries that are all there does not change when bytes
/// are added behind them.
proof fn lemma_entries_len_stable(p: Seq<u8>, q: Seq<u8>, count: nat)
    requires
        entries_len(p, count) is Some,
        p.is_prefix_of(q),
    ensures
        entries_len(q, count) == entries_len(p, count),
    decreases count,
{
    if count > 0 {
        let step = 5 + p[4];
        lemma_entries_len_stable(p.skip(step), q.skip(step), (count - 1) as nat);
    }
}

} // verus!
