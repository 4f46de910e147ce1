use vstd::prelude::*;
use vstd::string::StringSliceAdditionalSpecFns;

verus! {

broadcast use vstd::array::group_array_axioms;

/// Error returned when a chunk type tag cannot be built from the given input.
#[derive(Debug, Clone, Copy, PartialEq, Eq)]
pub enum ValidationError {
    /// The input does not hold exactly four bytes.
    WrongLength,
    /// A byte of the input is not an ASCII letter.
    InvalidByte,
}

/// True of a byte that may stand in a chunk type tag: an ASCII letter,
/// `A`-`Z` or `a`-`z`.
pub open spec fn spec_is_valid_byte(b: u8) -> bool {
    spec_is_upper(b) || spec_is_lower(b)
}

/// True of an uppercase ASCII letter.
pub open spec fn spec_is_upper(b: u8) -> bool {
    65 <= b && b <= 90
}

/// True of a lowercase ASCII letter.
pub open spec fn spec_is_lower(b: u8) -> bool {
    97 <= b && b <= 122
}

/// True of the byte sequences that form a well-formed type tag:
/// exactly four bytes, each an ASCII letter.
pub open spec fn spec_valid_tag(s: Seq<u8>) -> bool {
    s.len() == 4 && (forall|i: int| 0 <= i < 4 ==> spec_is_valid_byte(#[trigger] s[i]))
}

/// Reports whether `b` may stand in a type tag.
pub fn is_valid_byte(b: u8) -> (r: bool)
    ensures
        r == spec_is_valid_byte(b),
{
    b >= 65 && b <= 90 || (b >= 97 && b <= 122)
}

/// A four-byte chunk type tag. Every byte is an ASCII letter; the case of
/// each byte carries one classification bit.
#[derive(Debug, Clone, Copy, PartialEq, Eq)]
#[verifier::ext_equal]
pub struct ChunkType {
    tag: [u8; 4],
}

impl View for ChunkType {
    type V = Seq<u8>;

    closed spec fn view(&self) -> Seq<u8> {
        self.tag@
    }
}

impl ChunkType {
    /// The tag invariant: all four bytes are ASCII letters. Both factories
    /// establish it, and no other way to build a tag exists.
    pub open spec fn wf(&self) -> bool {
        spec_valid_tag(self@)
    }

    /// Validating factory: accepts exactly four bytes, each an ASCII letter.
    pub fn from_slice(data: &[u8]) -> (r: Result<ChunkType, ValidationError>)
        ensures
            match r {
                Ok(t) => t.wf() && t@ == data@,
                Err(ValidationError::WrongLength) => data@.len() != 4,
                Err(ValidationError::InvalidByte) => data@.len() == 4 && !spec_valid_tag(data@),
            },
    {
        if data.len() != 4 {
            return Err(ValidationError::WrongLength);
        }
        let mut i: usize = 0;
        while i < 4
            invariant
                data@.len() == 4,
                i <= 4,
                forall|j: int| 0 <= j < i ==> spec_is_valid_byte(#[trigger] data@[j]),
            decreases 4 - i,
        {
            if !is_valid_byte(data[i]) {
                return Err(ValidationError::InvalidByte);
            }
            i += 1;
        }
        let mut tag = [0u8; 4];
        tag[0] = data[0];
        tag[1] = data[1];
        tag[2] = data[2];
        tag[3] = data[3];
        let t = ChunkType { tag };
        proof {
            assert(t@ =~= data@);
        }
        Ok(t)
    }

    /// Validating factory from a four-byte array. The length is right by
    /// construction, so the only possible rejection is an invalid byte.
    pub fn from_bytes(value: [u8; 4]) -> (r: Result<ChunkType, ValidationError>)
        ensures
            match r {
                Ok(t) => t.wf() && t@ == value@,
                Err(e) => e == ValidationError::InvalidByte && !spec_valid_tag(value@),
            },
    {
        Self::from_slice(value.as_slice())
    }

    /// Validating factory from text: accepts exactly the strings whose
    /// encoding is four bytes, each an ASCII letter.
    pub fn from_str(s: &str) -> (r: Result<ChunkType, ValidationError>)
        ensures
            match r {
                Ok(t) => t.wf() && t@ == s.spec_bytes(),
                Err(ValidationError::WrongLength) => s.spec_bytes().len() != 4,
                Err(ValidationError::InvalidByte) => s.spec_bytes().len() == 4
                    && !spec_valid_tag(s.spec_bytes()),
            },
    {
        Self::from_slice(s.as_bytes())
    }

    /// Returns a copy of the four tag bytes.
    pub fn bytes(&self) -> (r: [u8; 4])
        ensures
            r@ == self@,
    {
        self.tag
    }

    /// True when the chunk is critical: the first byte is uppercase.
    pub open spec fn spec_is_critical(&self) -> bool {
        spec_is_upper(self@[0])
    }

    /// True when the chunk is public: the second byte is uppercase.
    pub open spec fn spec_is_public(&self) -> bool {
        spec_is_upper(self@[1])
    }

    /// True when the reserved bit is valid: the third byte is uppercase.
    pub open spec fn spec_is_reserved_bit_valid(&self) -> bool {
        spec_is_upper(self@[2])
    }

    /// True when the chunk is safe to copy: the fourth byte is lowercase.
    pub open spec fn spec_is_safe_to_copy(&self) -> bool {
        spec_is_lower(self@[3])
    }

    /// Criticality bit: the case of the first byte.
    pub fn is_critical(&self) -> (r: bool)
        ensures
            r == self.spec_is_critical(),
    {
        65 <= self.tag[0] && self.tag[0] <= 90
    }

    /// Publicity bit: the case of the second byte.
    pub fn is_public(&self) -> (r: bool)
        ensures
            r == self.spec_is_public(),
    {
        65 <= self.tag[1] && self.tag[1] <= 90
    }

    /// Reserved bit: the case of the third byte.
    pub fn is_reserved_bit_valid(&self) -> (r: bool)
        ensures
            r == self.spec_is_reserved_bit_valid(),
    {
        65 <= self.tag[2] && self.tag[2] <= 90
    }

    /// Safe-to-copy bit: the case of the fourth byte.
    pub fn is_safe_to_copy(&self) -> (r: bool)
        ensures
            r == self.spec_is_safe_to_copy(),
    {
        97 <= self.tag[3] && self.tag[3] <= 122
    }

    /// General validity flag: an alias of the reserved bit.
    pub fn is_valid(&self) -> (r: bool)
        ensures
            r == self.spec_is_reserved_bit_valid(),
    {
        self.is_reserved_bit_valid()
    }

    /// The tag as text: four ASCII characters, one per byte. Construction
    /// already forbids bytes outside ASCII, so the decoding never replaces
    /// anything.
    pub fn to_text(&self) -> (r: String)
        requires
            self.wf(),
        ensures
            r@.len() == 4,
            forall|i: int| 0 <= i < 4 ==> r@[i] == self@[i] as char,
    {
        proof {
            crate::text::lemma_ascii_bytes_decode(self@);
        }
        crate::text::lossy_string(self.tag.as_slice())
    }
}

/// Construction-path agreement: two tags that hold the same four bytes are
/// the same value, whichever factory built them.
pub proof fn lemma_tag_paths_agree(a: ChunkType, b: ChunkType)
    requires
        a@ == b@,
    ensures
        a == b,
{
    assert(a.tag =~= b.tag);
    assert(a =~= b);
}

} // verus!
