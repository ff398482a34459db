//! An incremental, zero-copy decoder for the protocol-buffers binary wire
//! format. Bytes are decoded one field at a time with explicit "need more
//! bytes" backpressure, so that a caller can feed the stream in arbitrarily
//! small chunks without ever buffering a whole message.
//!
//! The layers, leaves first: [`pb`] decodes varints and fixed-width values,
//! [`field_reader::FieldReader`] decodes one field header and scalar value,
//! [`matcher_fields::MatcherFields`] walks fields under a caller-supplied
//! navigation policy, and [`gather_fields::GatheredFields`] combines tagged
//! matches into caller-defined aggregates.

use vstd::prelude::*;

pub mod field_reader;
pub mod gather_fields;
pub mod io_ext;
pub mod matcher_fields;
pub mod pb;

pub use gather_fields::Slicer;

verus! {

/// Field number as declared in a schema; any value is accepted.
pub type FieldId = u32;

/// Supported protobuf wire types. The deprecated group wire types are a
/// decode error, not a variant.
#[derive(Debug, Clone, Copy, PartialEq, Eq, Structural)]
pub enum WireType {
    Varint,
    Fixed64,
    LengthDelimited,
    Fixed32,
}

/// The wire type encoded in the low three bits of `tag`, or the decoding
/// error those bits call for.
pub open spec fn wire_type_of_tag(tag: u32) -> Result<WireType, DecodingError> {
    let low = tag & 7;
    if low == 0 {
        Ok(WireType::Varint)
    } else if low == 1 {
        Ok(WireType::Fixed64)
    } else if low == 2 {
        Ok(WireType::LengthDelimited)
    } else if low == 5 {
        Ok(WireType::Fixed32)
    } else if low == 3 || low == 4 {
        Err(DecodingError::UnsupportedGroupWireType(tag))
    } else {
        Err(DecodingError::UnknownWireType(tag))
    }
}

impl WireType {
    /// Maps the low three bits of a field tag to a wire type:
    /// {0, 1, 2, 5} are supported, 3 and 4 are the unsupported groups.
    pub fn from_tag(tag: u32) -> (r: Result<WireType, DecodingError>)
        ensures
            r == wire_type_of_tag(tag),
    {
        let low = tag & 7u32;
        if low == 0 {
            Ok(WireType::Varint)
        } else if low == 1 {
            Ok(WireType::Fixed64)
        } else if low == 2 {
            Ok(WireType::LengthDelimited)
        } else if low == 5 {
            Ok(WireType::Fixed32)
        } else if low == 3 || low == 4 {
            Err(DecodingError::UnsupportedGroupWireType(tag))
        } else {
            Err(DecodingError::UnknownWireType(tag))
        }
    }
}

/// The decoded value of one field. For length-delimited fields this holds the
/// *declared length* of the payload, never the payload itself.
#[derive(Debug, Clone, Copy, PartialEq, Eq, Structural)]
pub enum FieldValue {
    Varint(u64),
    Fixed64(u64),
    Fixed32(u32),
    /// Length delimited data starts after two varints, tag and length. The
    /// payload continues for this many bytes after the length varint.
    DataLength(u32),
}

/// One decoded field header: identifier, wire type and scalar value (or
/// declared payload length).
#[derive(Debug, Clone, Copy, PartialEq, Eq, Structural)]
pub struct FieldInfo {
    /// Field identifier as in the .proto file.
    pub id: FieldId,
    /// Kind of the field, determines the variant of `value`.
    pub kind: WireType,
    /// Value determined by the `kind` field.
    pub value: FieldValue,
}

impl FieldInfo {
    /// The declared payload length: what remains of the field after the bytes
    /// already consumed for its header.
    pub open spec fn skip_len(self) -> int {
        match self.value {
            FieldValue::DataLength(x) => x as int,
            _ => 0,
        }
    }

    /// The wire type and the value variant agree.
    pub open spec fn wf(self) -> bool {
        match self.value {
            FieldValue::Varint(_) => self.kind is Varint,
            FieldValue::Fixed64(_) => self.kind is Fixed64,
            FieldValue::Fixed32(_) => self.kind is Fixed32,
            FieldValue::DataLength(_) => self.kind is LengthDelimited,
        }
    }

    pub fn bytes_to_skip(&self) -> (r: usize)
        ensures
            r == self.skip_len(),
    {
        match self.value {
            FieldValue::DataLength(x) => x as usize,
            _ => 0,
        }
    }
}

/// One field read off the front of a buffer: how many bytes its header took,
/// and the decoded header itself. It describes the buffer passed to the call
/// that produced it; extract what is needed before advancing the buffer.
#[derive(Debug, Clone, Copy, PartialEq, Eq, Structural)]
pub struct ReadField {
    /// How many bytes were consumed from the beginning of the buffer.
    pub consumed: usize,
    /// The actual read field, which can be used to skip the field.
    pub field: FieldInfo,
}

impl ReadField {
    pub fn consumed(&self) -> (r: usize)
        ensures
            r == self.consumed,
    {
        self.consumed
    }

    pub fn field_id(&self) -> (r: FieldId)
        ensures
            r == self.field.id,
    {
        self.field.id
    }

    /// Header bytes plus declared payload length: how far the stream offset
    /// moves once this field is fully consumed.
    pub fn bytes_to_skip(&self) -> (r: usize)
        requires
            self.consumed + self.field.skip_len() <= usize::MAX,
        ensures
            r == self.consumed + self.field.skip_len(),
    {
        self.consumed + self.field.bytes_to_skip()
    }

    /// The declared payload length; 0 for non-length-delimited fields.
    pub fn field_len(&self) -> (r: usize)
        ensures
            r == self.field.skip_len(),
    {
        self.field.bytes_to_skip()
    }

    pub fn wire_type(&self) -> (r: WireType)
        ensures
            r == self.field.kind,
    {
        self.field.kind
    }

    pub fn is_length_delimited(&self) -> (r: bool)
        ensures
            r == (self.field.kind is LengthDelimited),
    {
        match self.field.kind {
            WireType::LengthDelimited => true,
            _ => false,
        }
    }

    pub fn value(&self) -> (r: &FieldValue)
        ensures
            *r == self.field.value,
    {
        &self.field.value
    }
}

/// Emits a value as varint bytes the way the encoders here do: 7 bits at a
/// time, least significant first, and nothing at all for zero.
pub fn varint_bytes(value: u64) -> (r: Vec<u8>)
    ensures
        r@ == crate::pb::varint_bytes_spec(value),
{
    let mut v = value;
    let mut out: Vec<u8> = Vec::new();

    #[verifier::loop_isolation(false)]
    while v != 0
        invariant
            crate::pb::varint_bytes_spec(value) == out@ + crate::pb::varint_bytes_spec(v),
        decreases v,
    {
        let ghost v0 = v;
        let b: u8 = (v & 0x7f) as u8;
        v = v >> 7u64;
        let b = if v != 0 {
            b | 0x80
        } else {
            b
        };
        out.push(b);
        proof {
            assert(v0 > 0 ==> v0 >> 7u64 < v0) by (bit_vector);
            assert(v0 >= 0x80 <==> v0 >> 7u64 != 0) by (bit_vector);
            assert(v0 < 0x80 ==> (v0 & 0x7f) as u8 == v0 as u8) by (bit_vector);
            assert(((v0 & 0x7f) as u8) | 0x80 == ((v0 & 0x7f) | 0x80) as u8) by (bit_vector);
            assert(crate::pb::varint_bytes_spec(v0) == seq![b] + crate::pb::varint_bytes_spec(
                v0 >> 7u64,
            ));
            assert(out@ + crate::pb::varint_bytes_spec(v) =~= crate::pb::varint_bytes_spec(
                value,
            ));
        }
    }
    proof {
        assert(out@ + crate::pb::varint_bytes_spec(0u64) =~= out@);
    }
    out
}

impl FieldValue {
    /// Emits this value as one encoded field under the given id: the tag
    /// varint, then the varint bytes or little-endian bytes of the value.
    pub fn output_with_field_id(&self, id: FieldId) -> (r: Vec<u8>)
        ensures
            r@ == crate::field_reader::output_bytes(id, *self),
    {
        let lowest_bits: u32 = match self {
            FieldValue::Varint(_) => 0,
            FieldValue::Fixed64(_) => 1,
            FieldValue::DataLength(_) => 2,
            FieldValue::Fixed32(_) => 5,
        };

        let tag = (id << 3u32) | lowest_bits;

        let mut out = varint_bytes(tag as u64);

        match self {
            FieldValue::Varint(x) => {
                let mut payload = varint_bytes(*x);
                out.append(&mut payload);
            },
            FieldValue::Fixed64(x) => {
                let x = *x;
                out.push(x as u8);
                out.push(#[verifier::truncate] ((x >> 8u64) as u8));
                out.push(#[verifier::truncate] ((x >> 16u64) as u8));
                out.push(#[verifier::truncate] ((x >> 24u64) as u8));
                out.push(#[verifier::truncate] ((x >> 32u64) as u8));
                out.push(#[verifier::truncate] ((x >> 40u64) as u8));
                out.push(#[verifier::truncate] ((x >> 48u64) as u8));
                out.push(#[verifier::truncate] ((x >> 56u64) as u8));
                proof {
                    assert(out@ =~= crate::field_reader::output_bytes(id, *self));
                }
            },
            FieldValue::Fixed32(x) => {
                let x = *x;
                out.push(x as u8);
                out.push(#[verifier::truncate] ((x >> 8u32) as u8));
                out.push(#[verifier::truncate] ((x >> 16u32) as u8));
                out.push(#[verifier::truncate] ((x >> 24u32) as u8));
                proof {
                    assert(out@ =~= crate::field_reader::output_bytes(id, *self));
                }
            },
            FieldValue::DataLength(x) => {
                let mut payload = varint_bytes(*x as u64);
                out.append(&mut payload);
            },
        }

        out
    }
}

/// All of the bytes still remaining in the buffer need to be kept, but more
/// bytes should be read.
#[derive(Debug)]
pub struct NeedMoreBytes;

/// The two suspension outcomes. Neither is an error: both are resolved by
/// calling again, the second only after appending more input.
#[derive(Debug)]
pub enum Status {
    /// Would like to read the next item but there are no more bytes in the
    /// buffer. This could be because the input has been fully exhausted.
    IdleAtEndOfBuffer,
    /// Mid-field: reading a variable length integer, a fixed-width value, or
    /// a length-delimited payload.
    NeedMoreBytes,
}

/// Represents either a bug in the caller's policy, or an error in the
/// protobuf bytes. Fatal to the decode session.
#[derive(Debug, Clone, Copy, PartialEq, Eq, Structural)]
pub enum DecodingError {
    UnsupportedGroupWireType(u32),
    UnknownWireType(u32),
    TooManyVarint32Bytes,
    TooManyVarint64Bytes,
    InvalidUtf8,
    FailedMatcherNesting(usize, usize),
}

/// The uniform driver interface: advance `buf` in place past whatever was
/// consumed and hand back the next item, or one of the two suspension
/// statuses. Callers pass the unconsumed remainder back on the next call,
/// prefixed by any newly available bytes.
pub trait Reader {
    type Returned;

    /// The states and buffers a particular reader may be driven with. A
    /// reader that accepts any state and buffer can leave the default.
    open spec fn ready_for(&self, buf: &[u8]) -> bool {
        true
    }

    fn next(&mut self, buf: &mut &[u8]) -> (r: Result<Result<Self::Returned, Status>, DecodingError>)
        requires
            old(self).ready_for(*old(buf)),
        ensures
            exists|n: int|
                0 <= n <= old(buf)@.len() && final(buf)@ == old(buf)@.skip(n),
    ;
}

/// Errors which can happen when feeding a [`Reader`] from a byte source.
#[derive(Debug)]
pub enum ReadError {
    /// More bytes could not be read from the source but were expected.
    UnexpectedEndOfFile,
    /// Decoding the input failed.
    Decoding(DecodingError),
    /// An IO error occured.
    IO(std::io::Error),
}

/// Relies on std::io::Error, carried opaquely inside [`ReadError`].
#[verifier::external_type_specification]
#[verifier::external_body]
pub struct ExIoError(std::io::Error);

impl From<DecodingError> for ReadError {
    fn from(e: DecodingError) -> (r: Self) {
        ReadError::Decoding(e)
    }
}

impl vstd::std_specs::convert::FromSpecImpl<DecodingError> for ReadError {
    open spec fn obeys_from_spec() -> bool {
        true
    }

    open spec fn from_spec(e: DecodingError) -> Self {
        ReadError::Decoding(e)
    }
}

impl From<std::io::Error> for ReadError {
    fn from(e: std::io::Error) -> (r: Self) {
        ReadError::IO(e)
    }
}

impl vstd::std_specs::convert::FromSpecImpl<std::io::Error> for ReadError {
    open spec fn obeys_from_spec() -> bool {
        true
    }

    open spec fn from_spec(e: std::io::Error) -> Self {
        ReadError::IO(e)
    }
}

} // verus!
