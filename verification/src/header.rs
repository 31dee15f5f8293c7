//! The wire form of an outgoing message: an 8-byte header, then the body.

use byteorder::{LittleEndian, WriteBytesExt};
use vstd::prelude::*;

verus! {

/// Number of bytes in the header: the message type and the body's length, four bytes each.
pub const HEADER_SIZE: usize = 8;

/// The four bytes of `n`, least significant first.
pub open spec fn le_bytes(n: u32) -> Seq<u8> {
    seq![
        (n % 0x100) as u8,
        (n / 0x100 % 0x100) as u8,
        (n / 0x1_0000 % 0x100) as u8,
        (n / 0x100_0000) as u8,
    ]
}

/// `n` reduced to the 32 bits that a length field of the interface holds.
pub open spec fn low_32(n: nat) -> u32 {
    (n % 0x1_0000_0000) as u32
}

/// What goes over the wire for a message of type `msg_type` with body `body`.
pub open spec fn framed(msg_type: u32, body: Seq<u8>) -> Seq<u8> {
    le_bytes(msg_type) + le_bytes(low_32(body.len())) + body
}

/// Calls `byteorder::WriteBytesExt::write_u32::<LittleEndian>` on a vector: the four bytes of
/// `n`, least significant first, are appended to it. Writing to a vector does not fail; room
/// for four more bytes must be within what a vector can hold.
#[verifier::external_body]
fn write_u32_le(out: &mut Vec<u8>, n: u32)
    requires
        old(out)@.len() + 4 <= isize::MAX,
    ensures
        final(out)@ == old(out)@ + le_bytes(n),
{
    out.write_u32::<LittleEndian>(n).unwrap()
}

/// The low 32 bits of a length.
pub(crate) fn length_field(len: usize) -> (field: u32)
    ensures
        field == low_32(len as nat),
{
    let field: u32 = #[verifier::truncate] (len as u32);
    assert(field as int == len as int % 0x1_0000_0000) by (bit_vector)
        requires
            field == len as u32,
    ;
    field
}

/// Prepends the header to a message body.
pub fn frame_message(msg_type: u32, msg_data: &[u8]) -> (message: Vec<u8>)
    requires
        msg_data@.len() + HEADER_SIZE <= isize::MAX,
    ensures
        message@ == framed(msg_type, msg_data@),
{
    let mut message: Vec<u8> = Vec::with_capacity(msg_data.len() + HEADER_SIZE);
    write_u32_le(&mut message, msg_type);
    write_u32_le(&mut message, length_field(msg_data.len()));
    message.extend_from_slice(msg_data);
    message
}

/// The number that four bytes stand for, least significant first.
pub open spec fn from_le(s: Seq<u8>) -> int {
    s[0] + s[1] * 0x100 + s[2] * 0x1_0000 + s[3] * 0x100_0000
}

/// A framed message is eight bytes longer than its body; its first four bytes give back the
/// message type, the next four the low 32 bits of the body's length, and the rest is the body.
pub proof fn law_header_reads_back(msg_type: u32, body: Seq<u8>)
    ensures
        framed(msg_type, body).len() == HEADER_SIZE + body.len(),
        from_le(framed(msg_type, body).subrange(0, 4)) == msg_type,
        from_le(framed(msg_type, body).subrange(4, 8)) == body.len() % 0x1_0000_0000,
        framed(msg_type, body).skip(8) == body,
        ({
            let m = framed(msg_type, body);
            &&& m[0] + 0x100 * m[1] + 0x1_0000 * m[2] + 0x100_0000 * m[3] == msg_type
            &&& m[4] + 0x100 * m[5] + 0x1_0000 * m[6] + 0x100_0000 * m[7] == body.len()
                % 0x1_0000_0000
        }),
{
    let message = framed(msg_type, body);
    assert(message.subrange(0, 4) =~= le_bytes(msg_type));
    assert(message.subrange(4, 8) =~= le_bytes(low_32(body.len())));
    assert(message.skip(8) =~= body);
}

/// No two messages have the same framed bytes.
pub proof fn law_frames_are_distinct(type1: u32, body1: Seq<u8>, type2: u32, body2: Seq<u8>)
    requires
        framed(type1, body1) == framed(type2, body2),
    ensures
        type1 == type2,
        body1 == body2,
{
    law_header_reads_back(type1, body1);
    law_header_reads_back(type2, body2);
}

} // verus!
