//! Decoding one field header from the front of a buffer.
//!
//! [`parse_field`] is the mathematical model: it says, for any byte
//! sequence, whether the front holds a complete field header and what that
//! header is. [`FieldReader::next`] is the executable decoder, proved to
//! agree with the model.

use vstd::prelude::*;

use crate::pb::{
    encode_varint, le32_bytes, le64_bytes, le_u32, le_u64, lemma_encode_varint_props,
    lemma_parse_encoded_varint, lemma_parse_varint_agree, lemma_parse_varint_prefix,
    lemma_varint_end_spec, parse_varint, read_fixed32, read_fixed64, read_varint32,
    read_varint64, varint_bytes_spec, varint_end, VarintParse,
};
use crate::{
    wire_type_of_tag, DecodingError, FieldId, FieldInfo, FieldValue, ReadField, Status, WireType,
};

verus! {

/// A completely decoded field header: how many bytes it took (tag plus
/// scalar value, or tag plus length varint), and what it holds.
pub struct ParsedField {
    pub consumed: int,
    pub id: u32,
    pub kind: WireType,
    pub value: FieldValue,
}

impl ParsedField {
    /// The declared payload length still ahead in the stream: 0 for any
    /// field whose value was already decoded.
    pub open spec fn skip_len(self) -> int {
        match self.value {
            FieldValue::DataLength(x) => x as int,
            _ => 0,
        }
    }
}

/// What the front of a buffer holds: nothing at all, a truncated field, a
/// malformed one, or a complete field header.
pub enum FieldParse {
    /// The buffer is empty; there is nothing to read.
    Idle,
    /// The buffer ends inside the field header: more bytes may complete it.
    NeedMore,
    /// The bytes are malformed; no amount of further input helps.
    Fail(DecodingError),
    /// A complete field header.
    Parsed(ParsedField),
}

/// Decoding one field from the front of `data`: a varint tag whose low three
/// bits pick the wire type and whose remaining bits are the field id,
/// followed by the scalar value or, for length-delimited fields, by the
/// declared payload length (the payload itself is left in the buffer).
pub open spec fn parse_field(data: Seq<u8>) -> FieldParse {
    if data.len() == 0 {
        FieldParse::Idle
    } else {
        match parse_varint(data, 5) {
            VarintParse::NeedMore => FieldParse::NeedMore,
            VarintParse::TooMany => FieldParse::Fail(DecodingError::TooManyVarint32Bytes),
            VarintParse::Done { consumed: c, value: tagv } => {
                let tag = tagv as u32;
                match wire_type_of_tag(tag) {
                    Err(e) => FieldParse::Fail(e),
                    Ok(kind) => {
                        let rest = data.skip(c);
                        match kind {
                            WireType::Varint => match parse_varint(rest, 10) {
                                VarintParse::NeedMore => FieldParse::NeedMore,
                                VarintParse::TooMany => FieldParse::Fail(
                                    DecodingError::TooManyVarint64Bytes,
                                ),
                                VarintParse::Done { consumed: c2, value: v } => FieldParse::Parsed(
                                    ParsedField {
                                        consumed: c + c2,
                                        id: tag >> 3u32,
                                        kind,
                                        value: FieldValue::Varint(v),
                                    },
                                ),
                            },
                            WireType::Fixed64 => if rest.len() < 8 {
                                FieldParse::NeedMore
                            } else {
                                FieldParse::Parsed(
                                    ParsedField {
                                        consumed: c + 8,
                                        id: tag >> 3u32,
                                        kind,
                                        value: FieldValue::Fixed64(le_u64(rest)),
                                    },
                                )
                            },
                            WireType::Fixed32 => if rest.len() < 4 {
                                FieldParse::NeedMore
                            } else {
                                FieldParse::Parsed(
                                    ParsedField {
                                        consumed: c + 4,
                                        id: tag >> 3u32,
                                        kind,
                                        value: FieldValue::Fixed32(le_u32(rest)),
                                    },
                                )
                            },
                            WireType::LengthDelimited => match parse_varint(rest, 5) {
                                VarintParse::NeedMore => FieldParse::NeedMore,
                                VarintParse::TooMany => FieldParse::Fail(
                                    DecodingError::TooManyVarint32Bytes,
                                ),
                                VarintParse::Done { consumed: c2, value: v } => FieldParse::Parsed(
                                    ParsedField {
                                        consumed: c + c2,
                                        id: tag >> 3u32,
                                        kind,
                                        value: FieldValue::DataLength(v as u32),
                                    },
                                ),
                            },
                        }
                    },
                }
            },
        }
    }
}

/// A complete field header consumes at least one byte and no more than the
/// buffer holds, and its wire type agrees with its value variant.
pub proof fn lemma_parse_field_parsed(data: Seq<u8>)
    requires
        parse_field(data) is Parsed,
    ensures
        ({
            let pf = parse_field(data)->Parsed_0;
            &&& 0 < pf.consumed <= data.len()
            &&& (FieldInfo { id: pf.id, kind: pf.kind, value: pf.value }).wf()
            &&& wire_type_of_tag((pf.id << 3u32) | wire_index(pf.kind)) == Ok::<WireType,
                DecodingError>(pf.kind)
        }),
{
    let pf = parse_field(data)->Parsed_0;
    lemma_varint_end_spec(data, 0);
    if let VarintParse::Done { consumed: c, value: tagv } = parse_varint(data, 5) {
        let tag = tagv as u32;
        assert(0 < c <= data.len());
        let rest = data.skip(c);
        lemma_varint_end_spec(rest, 0);
        assert(rest.len() == data.len() - c);
        if let Ok(kind) = wire_type_of_tag(tag) {
            assert((tag & 7) < 8) by (bit_vector);
            assert(pf.id == tag >> 3u32);
            assert(((tag >> 3u32) << 3u32) | (tag & 7) == tag) by (bit_vector);
            match kind {
                WireType::Varint => {
                    if let VarintParse::Done { consumed: c2, value: _ } = parse_varint(rest, 10) {
                        assert(0 < c2 <= rest.len());
                    }
                },
                WireType::LengthDelimited => {
                    if let VarintParse::Done { consumed: c2, value: _ } = parse_varint(rest, 5) {
                        assert(0 < c2 <= rest.len());
                    }
                },
                _ => {},
            }
        }
    }
}

/// The three low bits that stand for a wire type in a tag.
pub open spec fn wire_index(kind: WireType) -> u32 {
    match kind {
        WireType::Varint => 0,
        WireType::Fixed64 => 1,
        WireType::LengthDelimited => 2,
        WireType::Fixed32 => 5,
    }
}

/// The wire type under which a value travels.
pub open spec fn wire_kind(value: FieldValue) -> WireType {
    match value {
        FieldValue::Varint(_) => WireType::Varint,
        FieldValue::Fixed64(_) => WireType::Fixed64,
        FieldValue::Fixed32(_) => WireType::Fixed32,
        FieldValue::DataLength(_) => WireType::LengthDelimited,
    }
}

/// The encoding of one field header: the tag varint, then the scalar value
/// or the declared payload length. For a length-delimited field this is the
/// header alone; the payload follows separately.
pub open spec fn encode_field(id: u32, value: FieldValue) -> Seq<u8> {
    let tag = (id << 3u32) | wire_index(wire_kind(value));
    encode_varint(tag as u64) + match value {
        FieldValue::Varint(x) => encode_varint(x),
        FieldValue::Fixed64(x) => le64_bytes(x),
        FieldValue::Fixed32(x) => le32_bytes(x),
        FieldValue::DataLength(x) => encode_varint(x as u64),
    }
}

/// As [`encode_field`], but with the greedy varint emitter that writes
/// nothing at all for a zero: what [`FieldValue::output_with_field_id`]
/// produces.
pub open spec fn output_bytes(id: u32, value: FieldValue) -> Seq<u8> {
    let tag = (id << 3u32) | wire_index(wire_kind(value));
    varint_bytes_spec(tag as u64) + match value {
        FieldValue::Varint(x) => varint_bytes_spec(x),
        FieldValue::Fixed64(x) => le64_bytes(x),
        FieldValue::Fixed32(x) => le32_bytes(x),
        FieldValue::DataLength(x) => varint_bytes_spec(x as u64),
    }
}

/// For a nonzero tag and a nonzero varint payload, the greedy emitter of
/// [`output_bytes`] produces exactly the encoding that
/// [`lemma_scalar_roundtrip`] speaks of.
pub proof fn lemma_output_bytes_canonical(id: FieldId, value: FieldValue)
    requires
        (id << 3u32) | wire_index(wire_kind(value)) != 0,
        value matches FieldValue::Varint(x) ==> x != 0,
        value matches FieldValue::DataLength(x) ==> x != 0,
    ensures
        output_bytes(id, value) == encode_field(id, value),
{
}

/// Law: round-trip of scalar encodings. For every value of every wire type,
/// decoding its encoding under a field id succeeds, consumes exactly the
/// encoded header, and hands back the same id, wire type and value.
pub proof fn lemma_scalar_roundtrip(id: FieldId, value: FieldValue)
    requires
        id < 0x2000_0000,
    ensures
        ({
            let enc = encode_field(id, value);
            parse_field(enc) == FieldParse::Parsed(
                ParsedField {
                    consumed: enc.len() as int,
                    id: id,
                    kind: wire_kind(value),
                    value: value,
                },
            )
        }),
{
    let w = wire_index(wire_kind(value));
    let tag = (id << 3u32) | w;
    let tag_enc = encode_varint(tag as u64);
    let payload: Seq<u8> = match value {
        FieldValue::Varint(x) => encode_varint(x),
        FieldValue::Fixed64(x) => le64_bytes(x),
        FieldValue::Fixed32(x) => le32_bytes(x),
        FieldValue::DataLength(x) => encode_varint(x as u64),
    };
    let enc = encode_field(id, value);
    assert(enc == tag_enc + payload);

    // the tag round-trips and its bits come apart again
    lemma_encode_varint_props(tag as u64);
    assert(enc.take(tag_enc.len() as int) =~= tag_enc);
    assert(tag as u64 <= 0xffff_ffff);
    lemma_parse_encoded_varint(enc, tag as u64, 5);
    let c = tag_enc.len() as int;
    assert((tag as u64) as u32 == tag) by (bit_vector);
    assert(id < 0x2000_0000 && w < 8 ==> ((id << 3u32) | w) >> 3u32 == id) by (bit_vector);
    assert(w < 8 ==> ((id << 3u32) | w) & 7 == w) by (bit_vector);

    let rest = enc.skip(c);
    assert(rest =~= payload);
    match value {
        FieldValue::Varint(x) => {
            lemma_encode_varint_props(x);
            assert(rest.take(encode_varint(x).len() as int) =~= encode_varint(x));
            lemma_parse_encoded_varint(rest, x, 10);
        },
        FieldValue::Fixed64(x) => {
            assert(le_u64(le64_bytes(x)) == x) by (bit_vector);
        },
        FieldValue::Fixed32(x) => {
            assert(le_u32(le32_bytes(x)) == x) by (bit_vector);
        },
        FieldValue::DataLength(x) => {
            lemma_encode_varint_props(x as u64);
            assert(rest.take(encode_varint(x as u64).len() as int) =~= encode_varint(x as u64));
            lemma_parse_encoded_varint(rest, x as u64, 5);
            assert((x as u64) as u32 == x) by (bit_vector);
        },
    }
}

/// Law: incremental-feed equivalence, first half. Any strict prefix of a
/// decodable field is no field yet: empty input reports idle, anything
/// longer but still short of the full header reports "need more bytes" —
/// never a value and never an error.
pub proof fn lemma_incremental_prefix(data: Seq<u8>, k: int)
    requires
        parse_field(data) is Parsed,
        0 <= k < parse_field(data)->Parsed_0.consumed,
    ensures
        k == 0 ==> parse_field(data.take(k)) is Idle,
        k > 0 ==> parse_field(data.take(k)) is NeedMore,
{
    lemma_parse_field_parsed(data);
    let pf = parse_field(data)->Parsed_0;
    let cut = data.take(k);
    if k == 0 {
        assert(cut.len() == 0);
    } else {
        lemma_varint_end_spec(data, 0);
        if let VarintParse::Done { consumed: c, value: tagv } = parse_varint(data, 5) {
            let e = varint_end(data, 0);
            if k <= e {
                lemma_parse_varint_prefix(data, 5, k);
            } else {
                // the tag is complete in the prefix; the value part is cut
                assert(forall|j: int| 0 <= j <= e ==> data[j] == #[trigger] cut[j]);
                lemma_parse_varint_agree(data, cut, 5);
                let rest = data.skip(c);
                let rest_cut = cut.skip(c);
                assert(rest_cut =~= rest.take(k - c));
                let tag = tagv as u32;
                if let Ok(kind) = wire_type_of_tag(tag) {
                    match kind {
                        WireType::Varint => {
                            if k - c > 0 {
                                lemma_varint_end_spec(rest, 0);
                                lemma_parse_varint_prefix(rest, 10, k - c);
                            }
                        },
                        WireType::LengthDelimited => {
                            if k - c > 0 {
                                lemma_varint_end_spec(rest, 0);
                                lemma_parse_varint_prefix(rest, 5, k - c);
                            }
                        },
                        _ => {},
                    }
                }
            }
        }
    }
}

/// Law: incremental-feed equivalence, second half. Once a buffer carries a
/// complete field header, the decode result is settled: any buffer that
/// agrees on those bytes — however much more it carries — decodes to the
/// identical result.
pub proof fn lemma_incremental_complete(d1: Seq<u8>, d2: Seq<u8>)
    requires
        parse_field(d1) is Parsed,
        parse_field(d1)->Parsed_0.consumed <= d2.len(),
        d2.take(parse_field(d1)->Parsed_0.consumed) == d1.take(parse_field(d1)->Parsed_0.consumed),
    ensures
        parse_field(d2) == parse_field(d1),
{
    lemma_parse_field_parsed(d1);
    let pf = parse_field(d1)->Parsed_0;
    let n = pf.consumed;
    assert(forall|j: int| 0 <= j < n ==> #[trigger] d2[j] == d1.take(n)[j]);
    assert(forall|j: int| 0 <= j < n ==> #[trigger] d2[j] == d1[j]);
    lemma_varint_end_spec(d1, 0);
    if let VarintParse::Done { consumed: c, value: tagv } = parse_varint(d1, 5) {
        let rest1 = d1.skip(c);
        lemma_varint_end_spec(rest1, 0);
        assert(c <= n);
        lemma_parse_varint_agree(d1, d2, 5);
        let rest2 = d2.skip(c);
        assert(forall|j: int| 0 <= j < n - c ==> #[trigger] rest2[j] == rest1[j]);
        let tag = tagv as u32;
        if let Ok(kind) = wire_type_of_tag(tag) {
            match kind {
                WireType::Varint => {
                    lemma_parse_varint_agree(rest1, rest2, 10);
                },
                WireType::LengthDelimited => {
                    lemma_parse_varint_agree(rest1, rest2, 5);
                },
                WireType::Fixed32 => {
                    assert(rest2[0] == rest1[0] && rest2[1] == rest1[1] && rest2[2] == rest1[2]
                        && rest2[3] == rest1[3]);
                },
                WireType::Fixed64 => {
                    assert(rest2[0] == rest1[0] && rest2[1] == rest1[1] && rest2[2] == rest1[2]
                        && rest2[3] == rest1[3] && rest2[4] == rest1[4] && rest2[5] == rest1[5]
                        && rest2[6] == rest1[6] && rest2[7] == rest1[7]);
                },
            }
        }
    }
}

/// Decodes one field at a time from the front of whatever buffer it is
/// handed. Keeps the header of the last field it decoded.
pub struct FieldReader {
    /// The header of the last field decoded, exposed so that contracts can
    /// speak of it.
    pub field: Option<FieldInfo>,
}

impl Default for FieldReader {
    fn default() -> (r: Self)
        ensures
            r == (FieldReader { field: None::<FieldInfo> }),
    {
        FieldReader { field: None }
    }
}

impl FieldReader {
    /// Reads the first bytes as any field, exactly as [`parse_field`] says.
    /// After a length-delimited field the payload must be skipped for
    /// [`ReadField::bytes_to_skip`] bytes in all, or it is read again as
    /// nested fields. No partial consumption is recorded on a suspension:
    /// retry the same call, from the same buffer start, once more bytes are
    /// appended.
    pub fn next(&mut self, data: &[u8]) -> (r: Result<Result<ReadField, Status>, DecodingError>)
        ensures
            match r {
                Ok(Ok(rf)) => {
                    &&& parse_field(data@) == FieldParse::Parsed(
                        ParsedField {
                            consumed: rf.consumed as int,
                            id: rf.field.id,
                            kind: rf.field.kind,
                            value: rf.field.value,
                        },
                    )
                    &&& 0 < rf.consumed <= data@.len()
                    &&& rf.field.wf()
                    &&& final(self).field == Some(rf.field)
                },
                Ok(Err(Status::IdleAtEndOfBuffer)) => parse_field(data@) is Idle && *final(self)
                    == *old(self),
                Ok(Err(Status::NeedMoreBytes)) => parse_field(data@) is NeedMore && *final(self)
                    == *old(self),
                Err(e) => parse_field(data@) == FieldParse::Fail(e) && *final(self) == *old(self),
            },
    {
        if data.len() == 0 {
            return Ok(Err(Status::IdleAtEndOfBuffer));
        }

        let (consumed, tag) = match read_varint32(data) {
            Err(e) => {
                return Err(e);
            },
            Ok(Err(NeedMoreBytes)) => {
                return Ok(Err(Status::NeedMoreBytes));
            },
            Ok(Ok(pair)) => pair,
        };

        let rest = vstd::slice::slice_subrange(data, consumed, data.len());
        proof {
            assert(rest@ =~= data@.skip(consumed as int));
        }

        let field = tag >> 3u32;
        let kind = match WireType::from_tag(tag) {
            Ok(kind) => kind,
            Err(e) => {
                return Err(e);
            },
        };

        let (additional, value) = match kind {
            WireType::Varint => match read_varint64(rest) {
                Err(e) => {
                    return Err(e);
                },
                Ok(Err(NeedMoreBytes)) => {
                    return Ok(Err(Status::NeedMoreBytes));
                },
                Ok(Ok((c2, val))) => (c2, FieldValue::Varint(val)),
            },
            WireType::Fixed32 => match read_fixed32(rest) {
                Err(NeedMoreBytes) => {
                    return Ok(Err(Status::NeedMoreBytes));
                },
                Ok((c2, val)) => (c2, FieldValue::Fixed32(val)),
            },
            WireType::Fixed64 => match read_fixed64(rest) {
                Err(NeedMoreBytes) => {
                    return Ok(Err(Status::NeedMoreBytes));
                },
                Ok((c2, val)) => (c2, FieldValue::Fixed64(val)),
            },
            WireType::LengthDelimited => match read_varint32(rest) {
                Err(e) => {
                    return Err(e);
                },
                Ok(Err(NeedMoreBytes)) => {
                    return Ok(Err(Status::NeedMoreBytes));
                },
                Ok(Ok((c2, len))) => (c2, FieldValue::DataLength(len)),
            },
        };

        let consumed = consumed + additional;

        let info = FieldInfo { id: field, kind, value };
        self.field = Some(info);

        Ok(Ok(ReadField { consumed, field: info }))
    }
}

} // verus!
