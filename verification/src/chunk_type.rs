//! The four-byte type code of a chunk and the property bits it carries.

use vstd::prelude::*;
use vstd::std_specs::convert::TryFromSpecImpl;
use vstd::utf8::*;

use crate::error::{EncodingError, FormatError};
use crate::text::{ascii_text, decode_text, is_ascii_bytes, lemma_ascii_decodes_bytewise};

verus! {

/// Bit 5 of a byte (value `0x20`) is clear. For an ASCII letter this is the
/// same as the letter being upper case.
pub open spec fn property_bit_clear(byte: u8) -> bool {
    byte & 0x20 == 0
}

/// The byte is an ASCII letter, `A`–`Z` or `a`–`z`.
pub open spec fn is_letter_byte(byte: u8) -> bool {
    (0x41 <= byte <= 0x5a) || (0x61 <= byte <= 0x7a)
}

/// A four-byte code passes validation: its reserved bit (bit 5 of the third
/// byte) is clear and every byte is an ASCII letter. The other three property
/// bits carry meaning but never make a code invalid.
pub open spec fn is_valid_code(code: Seq<u8>) -> bool {
    &&& code.len() == 4
    &&& property_bit_clear(code[2])
    &&& forall|i: int| 0 <= i < 4 ==> is_letter_byte(#[trigger] code[i])
}

/// Bit 5 is the one that tells the two cases of an ASCII letter apart: in a
/// letter it is clear exactly when the letter is upper case. In any byte it
/// is the bit of value 32.
pub proof fn lemma_property_bit(byte: u8)
    ensures
        property_bit_clear(byte) <==> (byte / 32) % 2 == 0,
        is_letter_byte(byte) ==> (property_bit_clear(byte) <==> byte <= 0x5a),
{
    assert((byte & 0x20 == 0) <==> (byte / 32) % 2 == 0) by (bit_vector);
}

/// The character is an ASCII letter, `A`–`Z` or `a`–`z`.
pub open spec fn is_letter_char(c: char) -> bool {
    ('A' <= c <= 'Z') || ('a' <= c <= 'z')
}

/// The text can name a chunk type: exactly four characters, all of them ASCII
/// letters.
pub open spec fn is_type_text(text: Seq<char>) -> bool {
    &&& text.len() == 4
    &&& forall|i: int| 0 <= i < 4 ==> is_letter_char(#[trigger] text[i])
}

/// The bytes that stand for the characters of a text, one for one.
pub open spec fn text_code(text: Seq<char>) -> Seq<u8> {
    Seq::new(text.len(), |i: int| text[i] as u8)
}

/// A chunk type code: four raw bytes, conventionally ASCII letters, whose
/// case encodes the ancillary, private, reserved and safe-to-copy properties.
#[derive(Debug, Clone, Copy, PartialEq, Eq, Structural)]
pub struct ChunkType {
    ancillary: u8,
    private: u8,
    reserved: u8,
    safe_to_copy: u8,
}

impl View for ChunkType {
    type V = Seq<u8>;

    /// The four bytes of the code, in wire order.
    closed spec fn view(&self) -> Seq<u8> {
        seq![self.ancillary, self.private, self.reserved, self.safe_to_copy]
    }
}

impl ChunkType {
    /// The code made of the first four bytes of `code`.
    pub closed spec fn of_bytes(code: Seq<u8>) -> ChunkType {
        ChunkType { ancillary: code[0], private: code[1], reserved: code[2], safe_to_copy: code[3] }
    }

    /// `of_bytes` builds the code that has the given four bytes.
    pub proof fn lemma_of_bytes(code: Seq<u8>)
        requires
            code.len() == 4,
        ensures
            Self::of_bytes(code)@ == code,
    {
        assert(Self::of_bytes(code)@ =~= code);
    }

    /// Every code has exactly four bytes.
    pub proof fn lemma_len(self)
        ensures
            self@.len() == 4,
    {
    }

    /// Two codes are equal exactly when their four bytes are equal.
    pub proof fn lemma_eq_by_bytes(self, other: ChunkType)
        ensures
            (self == other) <==> (self@ == other@),
    {
        if self@ == other@ {
            assert(self@[0] == other@[0]);
            assert(self@[1] == other@[1]);
            assert(self@[2] == other@[2]);
            assert(self@[3] == other@[3]);
        }
    }

    /// Reads a type code from text. The text must be exactly four ASCII
    /// letters; each becomes one byte of the code. Any other text is refused,
    /// whatever its length.
    pub fn from_str(s: &str) -> (parsed: Result<ChunkType, FormatError>)
        ensures
            match parsed {
                Ok(chunk_type) => is_type_text(s@) && chunk_type@ == text_code(s@),
                Err(e) => !is_type_text(s@) && e == FormatError::InvalidChunkType,
            },
    {
        proof {
            if is_type_text(s@) {
                assert(is_ascii_chars(s@));
                is_ascii_chars_encode_utf8(s@);
            }
        }
        if s.len() != 4 || !s.is_ascii() {
            return Err(FormatError::InvalidChunkType);
        }
        let raw = s.as_bytes();
        proof {
            is_ascii_chars_encode_utf8(s@);
            assert(raw@ =~= text_code(s@));
        }
        let code = [raw[0], raw[1], raw[2], raw[3]];
        if !(Self::is_letter(code[0]) && Self::is_letter(code[1]) && Self::is_letter(code[2])
            && Self::is_letter(code[3])) {
            return Err(FormatError::InvalidChunkType);
        }
        ChunkType::try_from(code)
    }

    /// The code as text. Succeeds exactly when the four bytes are valid UTF-8
    /// and then returns the characters they decode to; a code made of ASCII
    /// bytes, as every valid code is, gives one character per byte.
    pub fn to_string(&self) -> (text: Result<String, EncodingError>)
        ensures
            match text {
                Ok(s) => valid_utf8(self@) && s@ == decode_utf8(self@),
                Err(e) => !valid_utf8(self@) && e == EncodingError::InvalidUtf8,
            },
            is_ascii_bytes(self@) ==> text is Ok && text->Ok_0@ == ascii_text(self@),
    {
        let mut raw: Vec<u8> = Vec::new();
        raw.push(self.ancillary);
        raw.push(self.private);
        raw.push(self.reserved);
        raw.push(self.safe_to_copy);
        assert(raw@ =~= self@);
        proof {
            if is_ascii_bytes(self@) {
                lemma_ascii_decodes_bytewise(self@);
            }
        }
        decode_text(raw)
    }

    /// The stored bytes, verbatim.
    pub fn bytes(&self) -> (code: [u8; 4])
        ensures
            code@ == self@,
    {
        let code = [self.ancillary, self.private, self.reserved, self.safe_to_copy];
        assert(code@ =~= self@);
        code
    }

    /// Whether the code passes validation: reserved bit clear and all four
    /// bytes ASCII letters.
    pub fn is_valid(&self) -> (valid: bool)
        ensures
            valid == is_valid_code(self@),
    {
        self.is_reserved_bit_valid() && Self::is_letter(self.ancillary) && Self::is_letter(
            self.private,
        ) && Self::is_letter(self.reserved) && Self::is_letter(self.safe_to_copy)
    }

    /// Whether the chunk is critical: bit 5 of the first byte is clear.
    pub fn is_critical(&self) -> (critical: bool)
        ensures
            critical == property_bit_clear(self@[0]),
    {
        Self::check_property_bit(&self.ancillary)
    }

    /// Whether the chunk is public: bit 5 of the second byte is clear.
    pub fn is_public(&self) -> (public: bool)
        ensures
            public == property_bit_clear(self@[1]),
    {
        Self::check_property_bit(&self.private)
    }

    /// Whether the reserved bit, bit 5 of the third byte, is clear.
    pub fn is_reserved_bit_valid(&self) -> (valid: bool)
        ensures
            valid == property_bit_clear(self@[2]),
    {
        Self::check_property_bit(&self.reserved)
    }

    /// Whether the chunk is safe to copy: bit 5 of the fourth byte is set.
    /// This is the one property that holds when the bit is set.
    pub fn is_safe_to_copy(&self) -> (safe: bool)
        ensures
            safe == !property_bit_clear(self@[3]),
    {
        !Self::check_property_bit(&self.safe_to_copy)
    }

    fn check_property_bit(byte: &u8) -> (clear: bool)
        ensures
            clear == property_bit_clear(*byte),
    {
        *byte & 32 == 0
    }

    fn is_letter(byte: u8) -> (letter: bool)
        ensures
            letter == is_letter_byte(byte),
    {
        (0x41 <= byte && byte <= 0x5a) || (0x61 <= byte && byte <= 0x7a)
    }
}

impl TryFrom<[u8; 4]> for ChunkType {
    type Error = FormatError;

    /// Takes four raw bytes as a type code. Nothing is checked here: any four
    /// bytes are a code, and `is_valid` tells whether it is a valid one.
    fn try_from(bytes: [u8; 4]) -> (made: Result<ChunkType, FormatError>)
        ensures
            made is Ok,
            made->Ok_0@ == bytes@,
    {
        let chunk_type = ChunkType {
            ancillary: bytes[0],
            private: bytes[1],
            reserved: bytes[2],
            safe_to_copy: bytes[3],
        };
        assert(chunk_type@ =~= bytes@);
        Ok(chunk_type)
    }
}

impl TryFromSpecImpl<[u8; 4]> for ChunkType {
    open spec fn obeys_try_from_spec() -> bool {
        true
    }

    open spec fn try_from_spec(bytes: [u8; 4]) -> Result<ChunkType, FormatError> {
        Ok(ChunkType::of_bytes(bytes@))
    }
}

impl std::str::FromStr for ChunkType {
    type Err = FormatError;

    fn from_str(s: &str) -> (parsed: Result<ChunkType, FormatError>)
        ensures
            match parsed {
                Ok(chunk_type) => is_type_text(s@) && chunk_type@ == text_code(s@),
                Err(e) => !is_type_text(s@) && e == FormatError::InvalidChunkType,
            },
    {
        ChunkType::from_str(s)
    }
}

} // verus!
