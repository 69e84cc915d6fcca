//! The serialized form of a chunk: its layout, the big-endian numbers in it,
//! what parsing a buffer gives, and the laws that tie the two together.
//!
//! | offset       | size     | field                                   |
//! |--------------|----------|-----------------------------------------|
//! | 0            | 4        | length of the payload, big-endian       |
//! | 4            | 4        | type code                               |
//! | 8            | `length` | payload                                 |
//! | 8 + `length` | 4        | checksum of type and payload, big-endian|

use vstd::prelude::*;
use vstd::utf8::decode_utf8;

use crate::checksum::crc32_iso_hdlc;
use crate::error::FormatError;
use crate::text::decimal_text;

verus! {

/// The size of a serialized chunk with an empty payload: length, type and
/// checksum.
pub const MIN_CHUNK_SIZE: usize = 12;

/// The four bytes of `n`, most significant first.
pub open spec fn be_bytes(n: u32) -> Seq<u8> {
    seq![
        (n / 0x100_0000) as u8,
        (n / 0x1_0000 % 0x100) as u8,
        (n / 0x100 % 0x100) as u8,
        (n % 0x100) as u8,
    ]
}

/// The number whose big-endian bytes are the first four of `bytes`.
pub open spec fn be_value(bytes: Seq<u8>) -> int {
    bytes[0] * 0x100_0000 + bytes[1] * 0x1_0000 + bytes[2] * 0x100 + bytes[3]
}

/// Reading back the big-endian bytes of a number gives the number.
pub proof fn lemma_be_value_of_bytes(n: u32)
    ensures
        be_bytes(n).len() == 4,
        be_value(be_bytes(n)) == n,
{
}

/// Four bytes read as a big-endian number fit in 32 bits, and writing that
/// number gives the same four bytes.
pub proof fn lemma_be_bytes_of_value(bytes: Seq<u8>)
    requires
        bytes.len() == 4,
    ensures
        0 <= be_value(bytes) <= u32::MAX,
        be_bytes(be_value(bytes) as u32) == bytes,
{
    let (a, b, c, d) = (bytes[0] as int, bytes[1] as int, bytes[2] as int, bytes[3] as int);
    let n = a * 0x100_0000 + b * 0x1_0000 + c * 0x100 + d;
    assert(n == be_value(bytes));
    assert(n / 0x100_0000 == a && n / 0x1_0000 % 0x100 == b && n / 0x100 % 0x100 == c && n % 0x100
        == d) by {
        let hi = a * 0x100 + b;
        let mid = hi * 0x100 + c;
        assert(n == mid * 0x100 + d);
        assert(n / 0x100 == mid);
        assert(mid / 0x100 == hi);
        assert(hi / 0x100 == a);
        assert(n / 0x1_0000 == hi);
        assert(n / 0x100_0000 == a);
    }
    assert(be_bytes(n as u32) =~= bytes);
}

/// Reads four bytes at `at` as a big-endian number.
pub fn read_u32_be(bytes: &[u8], at: usize) -> (n: u32)
    requires
        at + 4 <= bytes@.len(),
    ensures
        n == be_value(bytes@.subrange(at as int, at + 4)),
{
    let b0: u32 = bytes[at] as u32;
    let b1: u32 = bytes[at + 1] as u32;
    let b2: u32 = bytes[at + 2] as u32;
    let b3: u32 = bytes[at + 3] as u32;
    b0 * 0x100_0000 + b1 * 0x1_0000 + b2 * 0x100 + b3
}

/// Appends the four big-endian bytes of `n` to `out`.
pub fn write_u32_be(out: &mut Vec<u8>, n: u32)
    ensures
        final(out)@ == old(out)@ + be_bytes(n),
{
    out.push((n / 0x100_0000) as u8);
    out.push((n / 0x1_0000 % 0x100) as u8);
    out.push((n / 0x100 % 0x100) as u8);
    out.push((n % 0x100) as u8);
    assert(out@ =~= old(out)@ + be_bytes(n));
}

/// What a chunk holds: the model that the contracts speak of.
pub struct ChunkView {
    /// The length field.
    pub length: u32,
    /// The four bytes of the type code.
    pub chunk_type: Seq<u8>,
    /// The payload.
    pub data: Seq<u8>,
    /// The checksum field.
    pub crc: u32,
}

impl ChunkView {
    /// The record keeps the invariants of a chunk: a four-byte type code, a
    /// length field equal to the payload's length, and a checksum field equal
    /// to the CRC-32 of the type code followed by the payload.
    pub open spec fn wf(self) -> bool {
        &&& self.chunk_type.len() == 4
        &&& self.length == self.data.len()
        &&& self.crc == crc32_iso_hdlc(self.chunk_type + self.data)
    }

    /// The chunk made from a type code and a payload, with the length and the
    /// checksum computed from them.
    pub open spec fn sealed(chunk_type: Seq<u8>, data: Seq<u8>) -> ChunkView {
        ChunkView {
            length: data.len() as u32,
            chunk_type,
            data,
            crc: crc32_iso_hdlc(chunk_type + data),
        }
    }

    /// The serialized form: length, type code, payload, checksum.
    pub open spec fn wire(self) -> Seq<u8> {
        be_bytes(self.length) + self.chunk_type + self.data + be_bytes(self.crc)
    }
}

/// The decimal numerals of the payload bytes, one after the other with
/// nothing between them.
pub open spec fn payload_numerals(data: Seq<u8>) -> Seq<char>
    decreases data.len(),
{
    if data.len() == 0 {
        Seq::empty()
    } else {
        payload_numerals(data.drop_last()) + decimal_text(data.last() as nat)
    }
}

/// A chunk written out for display: the length in decimal, the type code as
/// text, the payload bytes in decimal, and the checksum in decimal, with
/// nothing between them.
pub open spec fn display_text(chunk: ChunkView) -> Seq<char> {
    decimal_text(chunk.length as nat) + decode_utf8(chunk.chunk_type) + payload_numerals(
        chunk.data,
    ) + decimal_text(chunk.crc as nat)
}

/// The fields found in a buffer that is long enough for them, whatever the
/// checksum says: the length field, the type code after it, as many payload
/// bytes as the length field announces, and the four checksum bytes that
/// follow the payload.
pub open spec fn fields_of(bytes: Seq<u8>) -> ChunkView {
    let length = be_value(bytes.subrange(0, 4));
    ChunkView {
        length: length as u32,
        chunk_type: bytes.subrange(4, 8),
        data: bytes.subrange(8, 8 + length),
        crc: be_value(bytes.subrange(8 + length, 12 + length)) as u32,
    }
}

/// What parsing a buffer gives. A buffer of fewer than twelve bytes is refused
/// for its length; one whose length field reaches past its end is refused as
/// out of bounds; one whose stored checksum is not that of its type code and
/// payload is refused for the mismatch. Every other buffer gives the fields it
/// holds. Bytes after the checksum are not looked at.
pub open spec fn parse_outcome(bytes: Seq<u8>) -> Result<ChunkView, FormatError> {
    if bytes.len() < 12 {
        Err(FormatError::InvalidChunkLength)
    } else if 12 + be_value(bytes.subrange(0, 4)) > bytes.len() {
        Err(FormatError::DataOutOfBounds)
    } else {
        let fields = fields_of(bytes);
        if fields.crc != crc32_iso_hdlc(fields.chunk_type + fields.data) {
            Err(FormatError::CrcMismatch)
        } else {
            Ok(fields)
        }
    }
}

/// Parsing the serialized form of a well-formed chunk gives the chunk back.
pub proof fn lemma_parse_of_wire(chunk: ChunkView)
    requires
        chunk.wf(),
    ensures
        parse_outcome(chunk.wire()) == Ok::<ChunkView, FormatError>(chunk),
{
    let bytes = chunk.wire();
    let n = chunk.length as int;
    lemma_be_value_of_bytes(chunk.length);
    lemma_be_value_of_bytes(chunk.crc);
    assert(bytes.len() == 12 + n);
    assert(bytes.subrange(0, 4) =~= be_bytes(chunk.length));
    assert(bytes.subrange(4, 8) =~= chunk.chunk_type);
    assert(bytes.subrange(8, 8 + n) =~= chunk.data);
    assert(bytes.subrange(8 + n, 12 + n) =~= be_bytes(chunk.crc));
}

/// A chunk made from any type code and any payload that fits the length
/// field survives serializing and parsing unchanged: same length, type code,
/// payload and checksum.
pub proof fn lemma_round_trip(chunk_type: Seq<u8>, data: Seq<u8>)
    requires
        chunk_type.len() == 4,
        data.len() <= u32::MAX,
    ensures
        ChunkView::sealed(chunk_type, data).wf(),
        parse_outcome(ChunkView::sealed(chunk_type, data).wire()) == Ok::<ChunkView, FormatError>(
            ChunkView::sealed(chunk_type, data),
        ),
{
    lemma_parse_of_wire(ChunkView::sealed(chunk_type, data));
}

/// Whatever parsing accepts is a well-formed chunk, and its serialized form
/// is the part of the buffer that was read: the first `12 + length` bytes.
pub proof fn lemma_wire_of_parsed(bytes: Seq<u8>)
    requires
        parse_outcome(bytes) is Ok,
    ensures
        parse_outcome(bytes)->Ok_0.wf(),
        12 + parse_outcome(bytes)->Ok_0.length <= bytes.len(),
        parse_outcome(bytes)->Ok_0.wire() == bytes.subrange(
            0,
            12 + parse_outcome(bytes)->Ok_0.length,
        ),
{
    let chunk = parse_outcome(bytes)->Ok_0;
    let n = be_value(bytes.subrange(0, 4));
    lemma_be_bytes_of_value(bytes.subrange(0, 4));
    lemma_be_bytes_of_value(bytes.subrange(8 + n, 12 + n));
    assert(chunk.wire() =~= bytes.subrange(0, 12 + n));
}

/// A buffer shorter than twelve bytes is refused for its length, whatever it
/// holds.
pub proof fn lemma_short_buffer_refused(bytes: Seq<u8>)
    requires
        bytes.len() < 12,
    ensures
        parse_outcome(bytes) == Err::<ChunkView, FormatError>(FormatError::InvalidChunkLength),
{
}

/// A buffer whose length field, together with the twelve bytes of length,
/// type code and checksum, exceeds the buffer's size is refused as out of
/// bounds.
pub proof fn lemma_overlong_length_refused(bytes: Seq<u8>)
    requires
        bytes.len() >= 12,
        12 + be_value(bytes.subrange(0, 4)) > bytes.len(),
    ensures
        parse_outcome(bytes) == Err::<ChunkView, FormatError>(FormatError::DataOutOfBounds),
{
}

/// The region of a serialized chunk that the checksum covers: the type code
/// and the payload.
pub open spec fn covered_region(bytes: Seq<u8>) -> Seq<u8> {
    bytes.subrange(4, 8 + be_value(bytes.subrange(0, 4)))
}

/// A buffer that parsing accepts, altered anywhere in its type code or
/// payload while its length and checksum fields stay as they were, is refused
/// for a checksum mismatch whenever the alteration changes the CRC-32 of the
/// covered region.
pub proof fn lemma_altered_region_refused(accepted: Seq<u8>, altered: Seq<u8>)
    requires
        parse_outcome(accepted) is Ok,
        altered.len() == accepted.len(),
        forall|i: int|
            0 <= i < 4 || 8 + be_value(accepted.subrange(0, 4)) <= i < accepted.len()
                ==> altered[i] == accepted[i],
        crc32_iso_hdlc(covered_region(altered)) != crc32_iso_hdlc(covered_region(accepted)),
    ensures
        parse_outcome(altered) == Err::<ChunkView, FormatError>(FormatError::CrcMismatch),
{
    let n = be_value(accepted.subrange(0, 4));
    assert(altered.subrange(0, 4) =~= accepted.subrange(0, 4));
    assert(altered.subrange(8 + n, 12 + n) =~= accepted.subrange(8 + n, 12 + n));
    assert(covered_region(altered) =~= altered.subrange(4, 8) + altered.subrange(8, 8 + n));
    assert(covered_region(accepted) =~= accepted.subrange(4, 8) + accepted.subrange(8, 8 + n));
}

} // verus!
