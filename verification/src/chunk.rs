//! A chunk: a length-prefixed, type-tagged, checksummed record.

use vstd::prelude::*;
use vstd::slice::{slice_subrange, slice_to_vec};
use vstd::std_specs::convert::TryFromSpecImpl;
use vstd::string::StringExecFns;
use vstd::utf8::*;

use crate::checksum::{checksum, crc32_iso_hdlc};
use crate::chunk_type::ChunkType;
use crate::error::{EncodingError, FormatError};
use crate::text::{decimal_string, decode_text};
use crate::wire::{
    be_value, display_text, fields_of, lemma_parse_of_wire, parse_outcome, payload_numerals,
    read_u32_be, write_u32_be, ChunkView, MIN_CHUNK_SIZE,
};

verus! {

/// A chunk. Its length field always equals the length of its payload and its
/// checksum field always equals the CRC-32 of its type code followed by its
/// payload: a chunk is made with both computed, or parsed with both checked.
#[derive(Debug)]
pub struct Chunk {
    length: u32,
    chunk_type: ChunkType,
    data: Vec<u8>,
    crc: u32,
}

impl View for Chunk {
    type V = ChunkView;

    /// The four fields of the chunk.
    closed spec fn view(&self) -> ChunkView {
        ChunkView {
            length: self.length,
            chunk_type: self.chunk_type@,
            data: self.data@,
            crc: self.crc,
        }
    }
}

/// The checksum of a chunk with the given type code and payload: the CRC-32
/// of the four type bytes followed by the payload.
pub fn calculate_crc(chunk_type: &ChunkType, data: &Vec<u8>) -> (crc: u32)
    ensures
        crc == crc32_iso_hdlc(chunk_type@ + data@),
{
    let code = chunk_type.bytes();
    let mut covered: Vec<u8> = Vec::new();
    covered.push(code[0]);
    covered.push(code[1]);
    covered.push(code[2]);
    covered.push(code[3]);
    covered.extend_from_slice(data.as_slice());
    assert(covered@ =~= chunk_type@ + data@);
    checksum(covered.as_slice())
}

/// Compares the checksum stored in a buffer with the one computed over the
/// buffer's type code and payload. They must be equal; anything else is a
/// mismatch.
pub fn verify_crc(stored: u32, computed: u32) -> (verdict: Result<(), FormatError>)
    ensures
        stored == computed ==> verdict == Ok::<(), FormatError>(()),
        stored != computed ==> verdict == Err::<(), FormatError>(FormatError::CrcMismatch),
{
    if stored == computed {
        Ok(())
    } else {
        Err(FormatError::CrcMismatch)
    }
}

/// Splits a buffer into the four fields of a chunk without judging the
/// checksum: the length, the type code, the payload and the stored checksum.
/// A buffer under twelve bytes is refused for its length, and one whose
/// length field reaches past its end as out of bounds, before any payload or
/// checksum byte is touched.
pub fn read_fields(bytes: &[u8]) -> (fields: Result<(u32, ChunkType, Vec<u8>, u32), FormatError>)
    ensures
        match fields {
            Ok((length, chunk_type, data, crc)) => {
                &&& bytes@.len() >= 12
                &&& 12 + be_value(bytes@.subrange(0, 4)) <= bytes@.len()
                &&& fields_of(bytes@) == (ChunkView {
                    length,
                    chunk_type: chunk_type@,
                    data: data@,
                    crc,
                })
            },
            Err(e) => if bytes@.len() < 12 {
                e == FormatError::InvalidChunkLength
            } else {
                12 + be_value(bytes@.subrange(0, 4)) > bytes@.len() && e
                    == FormatError::DataOutOfBounds
            },
        },
{
    if bytes.len() < MIN_CHUNK_SIZE {
        return Err(FormatError::InvalidChunkLength);
    }
    let length = read_u32_be(bytes, 0);
    if length as usize > bytes.len() - MIN_CHUNK_SIZE {
        return Err(FormatError::DataOutOfBounds);
    }
    let data_end: usize = 8 + length as usize;
    let code = [bytes[4], bytes[5], bytes[6], bytes[7]];
    let chunk_type = ChunkType::try_from(code)?;
    assert(chunk_type@ =~= bytes@.subrange(4, 8));
    let data = slice_to_vec(slice_subrange(bytes, 8, data_end));
    let crc = read_u32_be(bytes, data_end);
    Ok((length, chunk_type, data, crc))
}

impl Chunk {
    #[verifier::type_invariant]
    closed spec fn inv(&self) -> bool {
        self@.wf()
    }

    /// Makes the chunk with the given type code and payload. The length and
    /// the checksum are computed from them. The payload's length must fit
    /// the 32-bit length field.
    pub fn new(chunk_type: ChunkType, data: Vec<u8>) -> (chunk: Chunk)
        requires
            data@.len() <= u32::MAX,
        ensures
            chunk@ == ChunkView::sealed(chunk_type@, data@),
            chunk@.wf(),
    {
        let crc = calculate_crc(&chunk_type, &data);
        proof {
            chunk_type.lemma_len();
        }
        Chunk { length: data.len() as u32, chunk_type, data, crc }
    }

    /// The serialized chunk: the length as four big-endian bytes, the four
    /// type bytes, the payload, and the checksum as four big-endian bytes.
    /// Parsing these bytes gives this chunk back.
    pub fn as_bytes(&self) -> (bytes: Vec<u8>)
        ensures
            bytes@ == self@.wire(),
            parse_outcome(bytes@) == Ok::<ChunkView, FormatError>(self@),
    {
        proof {
            use_type_invariant(self);
            lemma_parse_of_wire(self@);
        }
        let code = self.chunk_type.bytes();
        let mut bytes: Vec<u8> = Vec::new();
        write_u32_be(&mut bytes, self.length);
        bytes.push(code[0]);
        bytes.push(code[1]);
        bytes.push(code[2]);
        bytes.push(code[3]);
        bytes.extend_from_slice(self.data.as_slice());
        write_u32_be(&mut bytes, self.crc);
        assert(bytes@ =~= self@.wire());
        bytes
    }

    /// The payload as text. Succeeds exactly when the payload is valid UTF-8
    /// and then returns the characters it decodes to.
    pub fn data_as_string(&self) -> (text: Result<String, EncodingError>)
        ensures
            match text {
                Ok(s) => valid_utf8(self@.data) && s@ == decode_utf8(self@.data),
                Err(e) => !valid_utf8(self@.data) && e == EncodingError::InvalidUtf8,
            },
    {
        let data = slice_to_vec(self.data.as_slice());
        decode_text(data)
    }

    /// The chunk written out for display: the length in decimal, the type
    /// code as text, each payload byte in decimal, and the checksum in
    /// decimal, with nothing between them. Fails exactly when the type code
    /// is not valid UTF-8.
    pub fn to_string(&self) -> (text: Result<String, EncodingError>)
        ensures
            match text {
                Ok(s) => valid_utf8(self@.chunk_type) && s@ == display_text(self@),
                Err(e) => !valid_utf8(self@.chunk_type) && e == EncodingError::InvalidUtf8,
            },
    {
        let code = self.chunk_type.to_string()?;
        let mut out = decimal_string(self.length);
        out.append(code.as_str());
        let ghost head = out@;
        assert(out@ =~= head + payload_numerals(self.data@.take(0)));
        let mut i: usize = 0;
        while i < self.data.len()
            invariant
                i <= self.data@.len(),
                out@ == head + payload_numerals(self.data@.take(i as int)),
            decreases self.data@.len() - i,
        {
            let numeral = decimal_string(self.data[i] as u32);
            out.append(numeral.as_str());
            proof {
                let next = self.data@.take(i + 1);
                assert(next.drop_last() =~= self.data@.take(i as int));
                assert(out@ =~= head + payload_numerals(next));
            }
            i += 1;
        }
        assert(self.data@.take(i as int) =~= self.data@);
        let numeral = decimal_string(self.crc);
        out.append(numeral.as_str());
        Ok(out)
    }

    /// The length field, which is the number of payload bytes.
    pub fn length(&self) -> (length: u32)
        ensures
            length == self@.length,
            length == self@.data.len(),
    {
        proof {
            use_type_invariant(self);
        }
        self.length
    }

    /// The type code.
    pub fn chunk_type(&self) -> (chunk_type: &ChunkType)
        ensures
            chunk_type@ == self@.chunk_type,
    {
        &self.chunk_type
    }

    /// The payload.
    pub fn data(&self) -> (data: &[u8])
        ensures
            data@ == self@.data,
    {
        self.data.as_slice()
    }

    /// The checksum field, which is the CRC-32 of the type code followed by
    /// the payload.
    pub fn crc(&self) -> (crc: u32)
        ensures
            crc == self@.crc,
            crc == crc32_iso_hdlc(self@.chunk_type + self@.data),
    {
        proof {
            use_type_invariant(self);
        }
        self.crc
    }
}

impl TryFrom<&Vec<u8>> for Chunk {
    type Error = FormatError;

    /// Parses a chunk from the start of a buffer: the length, the type code,
    /// as many payload bytes as the length announces, and the checksum, which
    /// must be that of the type code and the payload. Bytes after the
    /// checksum are left alone.
    fn try_from(bytes: &Vec<u8>) -> (parsed: Result<Chunk, FormatError>)
        ensures
            match parsed {
                Ok(chunk) => parse_outcome(bytes@) == Ok::<ChunkView, FormatError>(chunk@)
                    && chunk@.wf(),
                Err(e) => parse_outcome(bytes@) == Err::<ChunkView, FormatError>(e),
            },
    {
        let (length, chunk_type, data, crc) = read_fields(bytes.as_slice())?;
        let computed = calculate_crc(&chunk_type, &data);
        verify_crc(crc, computed)?;
        proof {
            chunk_type.lemma_len();
        }
        Ok(Chunk { length, chunk_type, data, crc })
    }
}

impl TryFromSpecImpl<&Vec<u8>> for Chunk {
    /// The conversion is described by the `ensures` of `try_from`, over the
    /// chunk's view, and not by `try_from_spec`.
    open spec fn obeys_try_from_spec() -> bool {
        false
    }

    open spec fn try_from_spec(bytes: &Vec<u8>) -> Result<Chunk, FormatError> {
        arbitrary()
    }
}

} // verus!
