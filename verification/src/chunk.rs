use vstd::prelude::*;
use crate::chunk_type::ChunkType;
use crate::chunk_type::ValidationError;
use crate::chunk_type::spec_valid_tag;

verus! {

broadcast use vstd::array::group_array_axioms;

/// Error returned when a byte buffer cannot be parsed as a chunk.
#[derive(Debug, Clone, Copy, PartialEq, Eq)]
pub enum FormatError {
    /// The buffer holds fewer bytes than the layout demands.
    Truncated,
    /// The four tag bytes are not a well-formed type tag.
    InvalidTag(ValidationError),
    /// The trailing checksum differs from the one computed over tag and payload.
    ChecksumMismatch,
}

/// The big-endian four-byte encoding of a 32-bit integer.
pub open spec fn spec_u32_to_be_bytes(v: u32) -> Seq<u8> {
    seq![
        ((v >> 24) & 0xFF) as u8,
        ((v >> 16) & 0xFF) as u8,
        ((v >> 8) & 0xFF) as u8,
        (v & 0xFF) as u8,
    ]
}

/// The 32-bit integer read from four bytes in big-endian order.
pub open spec fn spec_u32_from_be_bytes(s: Seq<u8>) -> u32
    recommends
        s.len() == 4,
{
    ((s[0] as u32) << 24) | ((s[1] as u32) << 16) | ((s[2] as u32) << 8) | (s[3] as u32)
}

/// Reading back the big-endian encoding of an integer yields the integer.
pub proof fn lemma_u32_be_bytes_roundtrip(v: u32)
    ensures
        spec_u32_from_be_bytes(spec_u32_to_be_bytes(v)) == v,
{
    assert((((((v >> 24) & 0xFF) as u8 as u32) << 24) | ((((v >> 16) & 0xFF) as u8 as u32) << 16)
        | ((((v >> 8) & 0xFF) as u8 as u32) << 8) | ((v & 0xFF) as u8 as u32)) == v)
        by (bit_vector);
}

/// Encoding the integer read from four bytes yields those very bytes.
pub proof fn lemma_u32_be_bytes_inverse(s: Seq<u8>)
    requires
        s.len() == 4,
    ensures
        spec_u32_to_be_bytes(spec_u32_from_be_bytes(s)) =~= s,
{
    let b0 = s[0];
    let b1 = s[1];
    let b2 = s[2];
    let b3 = s[3];
    let v = spec_u32_from_be_bytes(s);
    assert(v == ((b0 as u32) << 24) | ((b1 as u32) << 16) | ((b2 as u32) << 8) | (b3 as u32));
    assert(((((((b0 as u32) << 24) | ((b1 as u32) << 16) | ((b2 as u32) << 8) | (b3 as u32)) >> 24)
        & 0xFF) as u8) == b0) by (bit_vector);
    assert(((((((b0 as u32) << 24) | ((b1 as u32) << 16) | ((b2 as u32) << 8) | (b3 as u32)) >> 16)
        & 0xFF) as u8) == b1) by (bit_vector);
    assert(((((((b0 as u32) << 24) | ((b1 as u32) << 16) | ((b2 as u32) << 8) | (b3 as u32)) >> 8)
        & 0xFF) as u8) == b2) by (bit_vector);
    assert((((((b0 as u32) << 24) | ((b1 as u32) << 16) | ((b2 as u32) << 8) | (b3 as u32)) & 0xFF)
        as u8) == b3) by (bit_vector);
}

/// Reads the 32-bit big-endian integer at offset `off`.
fn read_u32_be(bytes: &[u8], off: usize) -> (r: u32)
    requires
        off + 4 <= bytes@.len(),
    ensures
        r == spec_u32_from_be_bytes(bytes@.subrange(off as int, off as int + 4)),
{
    let r = ((bytes[off] as u32) << 24) | ((bytes[off + 1] as u32) << 16) | ((bytes[off + 2]
        as u32) << 8) | (bytes[off + 3] as u32);
    proof {
        let s = bytes@.subrange(off as int, off as int + 4);
        assert(s[0] == bytes@[off as int]);
        assert(s[1] == bytes@[off as int + 1]);
        assert(s[2] == bytes@[off as int + 2]);
        assert(s[3] == bytes@[off as int + 3]);
    }
    r
}

/// Appends the big-endian encoding of `v`.
fn push_u32_be(out: &mut Vec<u8>, v: u32)
    ensures
        final(out)@ == old(out)@ + spec_u32_to_be_bytes(v),
{
    proof {
        assert((v >> 24) & 0xFF < 256 && (v >> 16) & 0xFF < 256 && (v >> 8) & 0xFF < 256 && v
            & 0xFF < 256) by (bit_vector);
    }
    out.push(((v >> 24) & 0xFF) as u8);
    out.push(((v >> 16) & 0xFF) as u8);
    out.push(((v >> 8) & 0xFF) as u8);
    out.push((v & 0xFF) as u8);
    proof {
        assert(out@ =~= old(out)@ + spec_u32_to_be_bytes(v));
    }
}

/// The 32-bit cyclic redundancy checksum of a byte sequence, with the
/// parameters of the chunk format: polynomial 0x04C11DB7, input and output
/// reflected, initial value and final xor 0xFFFFFFFF. The contracts speak of
/// the checksum only through this name; the crc crate computes it.
pub uninterp spec fn crc32_of(bytes: Seq<u8>) -> u32;

/// Relies on crc::Crc::<u32>::new with the catalog algorithm CRC_32_ISO_HDLC
/// and Crc::checksum: the checksum depends on the input bytes alone.
#[verifier::external_body]
fn crc32_checksum(bytes: &[u8]) -> (r: u32)
    ensures
        r == crc32_of(bytes@),
{
    crc::Crc::<u32>::new(&crc::CRC_32_ISO_HDLC).checksum(bytes)
}

/// The mathematical content of a chunk: its tag bytes, its payload bytes,
/// and its checksum.
#[verifier::ext_equal]
pub ghost struct ChunkModel {
    pub tag: Seq<u8>,
    pub payload: Seq<u8>,
    pub crc: u32,
}

/// A validated chunk: a type tag, an opaque payload, and the checksum
/// computed over tag and payload. Immutable after construction; the checksum
/// can never drift from the bytes it covers.
#[derive(Debug)]
pub struct Chunk {
    typ: ChunkType,
    data: Vec<u8>,
    crc: u32,
}

impl View for Chunk {
    type V = ChunkModel;

    closed spec fn view(&self) -> ChunkModel {
        ChunkModel { tag: self.typ@, payload: self.data@, crc: self.crc }
    }
}

impl Chunk {
    /// The chunk invariant: the tag is well formed, the checksum is exactly
    /// the one computed over tag and payload, and the payload is small enough
    /// for the four-byte length field and for addressing.
    pub open spec fn wf(&self) -> bool {
        &&& spec_valid_tag(self@.tag)
        &&& self@.crc == crc32_of(self@.tag + self@.payload)
        &&& self@.payload.len() <= 0xFFFF_FFFF
        &&& self@.payload.len() + 12 <= usize::MAX
    }

    /// Builds a chunk from a tag and a payload, computing the checksum over
    /// the tag bytes followed by the payload bytes.
    pub fn new(chunk_type: ChunkType, data: Vec<u8>) -> (r: Chunk)
        requires
            chunk_type.wf(),
            data@.len() <= 0xFFFF_FFFF,
            data@.len() + 12 <= usize::MAX,
        ensures
            r.wf(),
            r@.tag == chunk_type@,
            r@.payload == data@,
            r@.crc == crc32_of(chunk_type@ + data@),
    {
        let tb = chunk_type.bytes();
        let mut covered: Vec<u8> = Vec::new();
        covered.push(tb[0]);
        covered.push(tb[1]);
        covered.push(tb[2]);
        covered.push(tb[3]);
        proof {
            assert(covered@ =~= chunk_type@ + data@.subrange(0, 0));
        }
        let mut i: usize = 0;
        while i < data.len()
            invariant
                i <= data@.len(),
                covered@ == chunk_type@ + data@.subrange(0, i as int),
            decreases data@.len() - i,
        {
            covered.push(data[i]);
            i += 1;
            proof {
                assert(covered@ =~= chunk_type@ + data@.subrange(0, i as int));
            }
        }
        proof {
            assert(covered@ =~= chunk_type@ + data@);
        }
        let crc = crc32_checksum(covered.as_slice());
        Chunk { typ: chunk_type, data, crc }
    }

    /// The payload byte count, as carried in the length field.
    pub fn length(&self) -> (r: u32)
        requires
            self.wf(),
        ensures
            r == self@.payload.len(),
    {
        self.data.len() as u32
    }

    /// The chunk's type tag.
    pub fn chunk_type(&self) -> (r: &ChunkType)
        ensures
            r@ == self@.tag,
    {
        &self.typ
    }

    /// A read-only view of the payload bytes.
    pub fn data(&self) -> (r: &[u8])
        ensures
            r@ == self@.payload,
    {
        self.data.as_slice()
    }

    /// The stored checksum.
    pub fn crc(&self) -> (r: u32)
        ensures
            r == self@.crc,
    {
        self.crc
    }

    /// A copy of the payload bytes.
    pub fn as_bytes(&self) -> (r: Vec<u8>)
        ensures
            r@ == self@.payload,
    {
        vstd::slice::slice_to_vec(self.data.as_slice())
    }

    /// Best-effort text view of the payload, for display only: a payload
    /// that is valid UTF-8 decodes exactly; elsewhere invalid sequences are
    /// replaced, and only determinism is stated.
    pub fn data_as_string(&self) -> (r: String)
        ensures
            r@ == crate::text::lossy_utf8_of(self@.payload),
            vstd::utf8::valid_utf8(self@.payload) ==> r@ == vstd::utf8::decode_utf8(
                self@.payload,
            ),
    {
        crate::text::lossy_string(self.data.as_slice())
    }

    /// The byte layout of a chunk: four-byte big-endian payload length, four
    /// tag bytes, the payload, and the four-byte big-endian checksum.
    pub open spec fn spec_serialize(&self) -> Seq<u8>
        recommends
            self.wf(),
    {
        spec_u32_to_be_bytes(self@.payload.len() as u32) + self@.tag + self@.payload
            + spec_u32_to_be_bytes(self@.crc)
    }

    /// Writes the chunk in its byte layout; `parse` of the result restores
    /// the chunk field for field.
    pub fn serialize(&self) -> (r: Vec<u8>)
        requires
            self.wf(),
        ensures
            r@ == self.spec_serialize(),
    {
        let mut out: Vec<u8> = Vec::new();
        push_u32_be(&mut out, self.data.len() as u32);
        let tb = self.typ.bytes();
        out.push(tb[0]);
        out.push(tb[1]);
        out.push(tb[2]);
        out.push(tb[3]);
        let ghost head = spec_u32_to_be_bytes(self@.payload.len() as u32) + self@.tag;
        proof {
            assert(out@ =~= head + self@.payload.subrange(0, 0));
        }
        let mut i: usize = 0;
        while i < self.data.len()
            invariant
                self.wf(),
                i <= self@.payload.len(),
                head == spec_u32_to_be_bytes(self@.payload.len() as u32) + self@.tag,
                out@ == head + self@.payload.subrange(0, i as int),
            decreases self@.payload.len() - i,
        {
            out.push(self.data[i]);
            i += 1;
            proof {
                assert(out@ =~= head + self@.payload.subrange(0, i as int));
            }
        }
        proof {
            assert(out@ =~= head + self@.payload);
        }
        push_u32_be(&mut out, self.crc);
        proof {
            assert(out@ =~= self.spec_serialize());
        }
        out
    }
}

/// What parsing a byte sequence yields: the chunk's content, or the error
/// the layout forces. The buffer must hold the four-byte length field; the
/// declared payload length plus the tag and checksum fields must fit in what
/// follows; the tag bytes must be a well-formed tag; and the trailing
/// checksum must equal the one computed over tag and payload. The checks
/// happen in that order, so a bad length or tag is reported before a
/// checksum failure could mask it.
pub open spec fn spec_parse(bytes: Seq<u8>) -> Result<ChunkModel, FormatError> {
    if bytes.len() < 4 {
        Err(FormatError::Truncated)
    } else {
        let len = spec_u32_from_be_bytes(bytes.subrange(0, 4)) as int;
        if bytes.len() < len + 12 {
            Err(FormatError::Truncated)
        } else {
            let tag = bytes.subrange(4, 8);
            let payload = bytes.subrange(8, 8 + len);
            let stored = spec_u32_from_be_bytes(bytes.subrange(8 + len, 12 + len));
            if !spec_valid_tag(tag) {
                Err(FormatError::InvalidTag(ValidationError::InvalidByte))
            } else if stored != crc32_of(tag + payload) {
                Err(FormatError::ChecksumMismatch)
            } else {
                Ok(ChunkModel { tag, payload, crc: stored })
            }
        }
    }
}

impl Chunk {
    /// Parses one chunk from its byte layout, validating the tag and
    /// re-checking the checksum; on any failure no chunk is produced. The
    /// buffer must not extend past the chunk it declares.
    pub fn parse(bytes: &[u8]) -> (r: Result<Chunk, FormatError>)
        requires
            bytes@.len() >= 4 ==> bytes@.len() <= spec_u32_from_be_bytes(
                bytes@.subrange(0, 4),
            ) + 12,
        ensures
            match r {
                Ok(c) => c.wf() && spec_parse(bytes@) == Ok::<ChunkModel, FormatError>(c@),
                Err(e) => spec_parse(bytes@) == Err::<ChunkModel, FormatError>(e),
            },
    {
        if bytes.len() < 4 {
            return Err(FormatError::Truncated);
        }
        let declared = read_u32_be(bytes, 0);
        let len = declared as usize;
        if bytes.len() < 12 || bytes.len() - 12 < len {
            return Err(FormatError::Truncated);
        }
        let tag_slice = vstd::slice::slice_subrange(bytes, 4, 8);
        let typ = match ChunkType::from_slice(tag_slice) {
            Ok(t) => t,
            Err(e) => {
                return Err(FormatError::InvalidTag(e));
            },
        };
        let mut payload: Vec<u8> = Vec::new();
        let mut i: usize = 0;
        while i < len
            invariant
                i <= len,
                len + 12 <= usize::MAX,
                len + 12 <= bytes@.len(),
                payload@ == bytes@.subrange(8, 8 + i as int),
            decreases len - i,
        {
            payload.push(bytes[8 + i]);
            i += 1;
            proof {
                assert(payload@ =~= bytes@.subrange(8, 8 + i as int));
            }
        }
        let stored = read_u32_be(bytes, 8 + len);
        let chunk = Chunk::new(typ, payload);
        if chunk.crc != stored {
            return Err(FormatError::ChecksumMismatch);
        }
        proof {
            assert(spec_parse(bytes@) == Ok::<ChunkModel, FormatError>(chunk@)) by {
                let m = spec_parse(bytes@)->Ok_0;
                assert(chunk@ =~= m);
            }
        }
        Ok(chunk)
    }
}

/// Checksum determinism: chunks whose tag and payload bytes concatenate to
/// the same sequence carry the same checksum.
pub proof fn lemma_crc_deterministic(a: Chunk, b: Chunk)
    requires
        a.wf(),
        b.wf(),
        a@.tag + a@.payload == b@.tag + b@.payload,
    ensures
        a@.crc == b@.crc,
{
}

/// Round trip: parsing the serialization of any well-formed chunk succeeds
/// and yields exactly its tag, payload and checksum. Together with the
/// contract of `new`, this also says that a chunk built directly and one
/// parsed back from its own serialization agree in every field.
pub proof fn lemma_round_trip(c: Chunk)
    requires
        c.wf(),
    ensures
        spec_parse(c.spec_serialize()) == Ok::<ChunkModel, FormatError>(c@),
{
    let s = c.spec_serialize();
    let n = c@.payload.len() as int;
    let len32 = c@.payload.len() as u32;
    assert(s.len() == n + 12);
    assert(s.subrange(0, 4) =~= spec_u32_to_be_bytes(len32));
    lemma_u32_be_bytes_roundtrip(len32);
    assert(s.subrange(4, 8) =~= c@.tag);
    assert(s.subrange(8, 8 + n) =~= c@.payload);
    assert(s.subrange(8 + n, 12 + n) =~= spec_u32_to_be_bytes(c@.crc));
    lemma_u32_be_bytes_roundtrip(c@.crc);
    assert(spec_parse(s)->Ok_0 =~= c@);
}

/// Tamper detection: a buffer that differs from a chunk's serialization in
/// exactly one byte of the trailing checksum field — as after one flipped
/// bit there — fails to parse with a checksum mismatch.
pub proof fn lemma_checksum_tamper(c: Chunk, s: Seq<u8>, i: int)
    requires
        c.wf(),
        s.len() == c.spec_serialize().len(),
        8 + c@.payload.len() <= i < 12 + c@.payload.len(),
        s[i] != c.spec_serialize()[i],
        forall|j: int| 0 <= j < s.len() && j != i ==> s[j] == c.spec_serialize()[j],
    ensures
        spec_parse(s) == Err::<ChunkModel, FormatError>(FormatError::ChecksumMismatch),
{
    let ser = c.spec_serialize();
    let n = c@.payload.len() as int;
    let len32 = c@.payload.len() as u32;
    assert(s.subrange(0, 4) =~= spec_u32_to_be_bytes(len32));
    lemma_u32_be_bytes_roundtrip(len32);
    assert(s.subrange(4, 8) =~= c@.tag);
    assert(s.subrange(8, 8 + n) =~= c@.payload);
    let field = s.subrange(8 + n, 12 + n);
    let stored = spec_u32_from_be_bytes(field);
    assert(field[i - (8 + n)] == s[i]);
    assert(ser.subrange(8 + n, 12 + n) =~= spec_u32_to_be_bytes(c@.crc));
    assert(field != spec_u32_to_be_bytes(c@.crc));
    if stored == c@.crc {
        lemma_u32_be_bytes_inverse(field);
        assert(spec_u32_to_be_bytes(stored) =~= field);
        assert(false);
    }
}

/// Truncation detection: every strict prefix of a chunk's serialization
/// fails to parse as truncated.
pub proof fn lemma_truncation(c: Chunk, n: int)
    requires
        c.wf(),
        0 <= n < c.spec_serialize().len(),
    ensures
        spec_parse(c.spec_serialize().take(n)) == Err::<ChunkModel, FormatError>(
            FormatError::Truncated,
        ),
{
    let ser = c.spec_serialize();
    let t = ser.take(n);
    let len32 = c@.payload.len() as u32;
    if n >= 4 {
        assert(t.subrange(0, 4) =~= spec_u32_to_be_bytes(len32));
        lemma_u32_be_bytes_roundtrip(len32);
        assert(t.len() < c@.payload.len() + 12);
    }
}

} // verus!
