//! Byte-level building blocks shared by both codecs: the envelope byte,
//! big-endian integers and length-prefixed UTF-8 text.

use vstd::prelude::*;
use vstd::string::*;
use vstd::utf8::*;

verus! {

/// First byte of every buffer that belongs to this protocol family.
pub const IDENTIFIER: u8 = 0x4F;

/// The two bytes of `x`, most significant first.
pub open spec fn be_u16(x: u16) -> Seq<u8> {
    seq![(x / 0x100) as u8, (x % 0x100) as u8]
}

/// The four bytes of `x`, most significant first.
pub open spec fn be_u32(x: u32) -> Seq<u8> {
    seq![
        (x / 0x100_0000) as u8,
        (x / 0x1_0000 % 0x100) as u8,
        (x / 0x100 % 0x100) as u8,
        (x % 0x100) as u8,
    ]
}

/// The number whose big-endian bytes are the first two bytes of `b`.
pub open spec fn u16_of_be(b: Seq<u8>) -> u16
    recommends
        b.len() >= 2,
{
    (b[0] * 0x100 + b[1]) as u16
}

/// The number whose big-endian bytes are the first four bytes of `b`.
pub open spec fn u32_of_be(b: Seq<u8>) -> u32
    recommends
        b.len() >= 4,
{
    (b[0] * 0x100_0000 + b[1] * 0x1_0000 + b[2] * 0x100 + b[3]) as u32
}

/// Reading back the bytes written for `x` gives `x`.
pub proof fn lemma_be_u16_read_back(x: u16)
    ensures
        be_u16(x).len() == 2,
        u16_of_be(be_u16(x)) == x,
{
}

/// Writing the number read from two bytes gives those bytes.
pub proof fn lemma_be_u16_write_back(b: Seq<u8>)
    requires
        b.len() == 2,
    ensures
        be_u16(u16_of_be(b)) == b,
{
}

/// Reading back the bytes written for `x` gives `x`.
pub proof fn lemma_be_u32_read_back(x: u32)
    ensures
        be_u32(x).len() == 4,
        u32_of_be(be_u32(x)) == x,
{
}

/// Writing the number read from four bytes gives those bytes.
pub proof fn lemma_be_u32_write_back(b: Seq<u8>)
    requires
        b.len() == 4,
    ensures
        be_u32(u32_of_be(b)) == b,
{
    let b0 = b[0] as u32;
    let b1 = b[1] as u32;
    let b2 = b[2] as u32;
    let b3 = b[3] as u32;
    let x = u32_of_be(b);
    assert(x / 0x100_0000 == b0 && x / 0x1_0000 % 0x100 == b1 && x / 0x100 % 0x100 == b2 && x
        % 0x100 == b3) by (bit_vector)
        requires
            x == b0 * 0x100_0000 + b1 * 0x1_0000 + b2 * 0x100 + b3,
            b0 < 0x100,
            b1 < 0x100,
            b2 < 0x100,
            b3 < 0x100,
    ;
}

/// Appends the big-endian bytes of `x` to `out`.
pub fn push_u16(out: &mut Vec<u8>, x: u16)
    ensures
        final(out)@ == old(out)@ + be_u16(x),
{
    out.push((x / 0x100) as u8);
    out.push((x % 0x100) as u8);
}

/// Appends the big-endian bytes of `x` to `out`.
pub fn push_u32(out: &mut Vec<u8>, x: u32)
    ensures
        final(out)@ == old(out)@ + be_u32(x),
{
    out.push((x / 0x100_0000) as u8);
    out.push((x / 0x1_0000 % 0x100) as u8);
    out.push((x / 0x100 % 0x100) as u8);
    out.push((x % 0x100) as u8);
}

/// Reads the big-endian number held in the two bytes of `bytes` from `at` on.
pub fn read_u16(bytes: &[u8], at: usize) -> (x: u16)
    requires
        at + 2 <= bytes@.len(),
    ensures
        x == u16_of_be(bytes@.subrange(at as int, at + 2)),
{
    let hi: u16 = bytes[at] as u16;
    let lo: u16 = bytes[at + 1] as u16;
    hi * 0x100 + lo
}

/// Reads the big-endian number held in the four bytes of `bytes` from `at` on.
pub fn read_u32(bytes: &[u8], at: usize) -> (x: u32)
    requires
        at + 4 <= bytes@.len(),
    ensures
        x == u32_of_be(bytes@.subrange(at as int, at + 4)),
{
    let b0: u32 = bytes[at] as u32;
    let b1: u32 = bytes[at + 1] as u32;
    let b2: u32 = bytes[at + 2] as u32;
    let b3: u32 = bytes[at + 3] as u32;
    b0 * 0x100_0000 + b1 * 0x1_0000 + b2 * 0x100 + b3
}

/// Whether the UTF-8 form of `text` can be announced by a one-byte length.
pub open spec fn fits_u8(text: Seq<char>) -> bool {
    encode_utf8(text).len() <= 0xFF
}

/// Whether the UTF-8 form of `text` can be announced by a two-byte length.
pub open spec fn fits_u16(text: Seq<char>) -> bool {
    encode_utf8(text).len() <= 0xFFFF
}

/// A text preceded by the one-byte count of its UTF-8 bytes.
pub open spec fn short_text(text: Seq<char>) -> Seq<u8> {
    seq![encode_utf8(text).len() as u8] + encode_utf8(text)
}

/// A short text is read back from its bytes: the count comes first and the
/// bytes after it are the UTF-8 form of the text.
pub proof fn lemma_short_text(text: Seq<char>)
    requires
        fits_u8(text),
    ensures
        short_text(text).len() == 1 + encode_utf8(text).len(),
        short_text(text)[0] == encode_utf8(text).len(),
        short_text(text).skip(1) == encode_utf8(text),
        valid_utf8(encode_utf8(text)),
        decode_utf8(encode_utf8(text)) == text,
{
    encode_utf8_valid_utf8(text);
    encode_utf8_decode_utf8(text);
}

/// Calls `core::str::from_utf8`. By its documentation it succeeds exactly on
/// well-formed UTF-8, and the string slice it returns is a view of the very
/// bytes it was given.
pub assume_specification[ core::str::from_utf8 ](bytes: &[u8]) -> (r: Result<
    &str,
    core::str::Utf8Error,
>)
    ensures
        r is Ok <==> valid_utf8(bytes@),
        r matches Ok(text) ==> text.spec_bytes() == bytes@,
;

/// The error of `core::str::from_utf8`; nothing is read from it.
#[verifier::external_type_specification]
#[verifier::external_body]
pub struct ExUtf8Error(core::str::Utf8Error);

/// Appends the UTF-8 form of `text` to `out`.
pub fn push_text(out: &mut Vec<u8>, text: &String)
    ensures
        final(out)@ == old(out)@ + encode_utf8(text@),
{
    out.extend_from_slice(text.as_str().as_bytes());
}

/// The number of bytes that the UTF-8 form of `text` takes.
pub fn text_len(text: &String) -> (n: usize)
    ensures
        n == encode_utf8(text@).len(),
{
    text.as_str().as_bytes().len()
}

/// Decodes the bytes of `bytes` between `from` and `to` as UTF-8 text. The
/// result is `None` exactly when they are not well-formed UTF-8.
pub fn read_text(bytes: &[u8], from: usize, to: usize) -> (r: Option<String>)
    requires
        from <= to <= bytes@.len(),
    ensures
        r is Some <==> valid_utf8(bytes@.subrange(from as int, to as int)),
        r matches Some(text) ==> {
            &&& text@ == decode_utf8(bytes@.subrange(from as int, to as int))
            &&& encode_utf8(text@) == bytes@.subrange(from as int, to as int)
        },
{
    match core::str::from_utf8(&bytes[from..to]) {
        Ok(text) => {
            proof {
                encode_utf8_decode_utf8(text@);
            }
            Some(text.to_owned())
        },
        Err(_) => None,
    }
}

} // verus!
