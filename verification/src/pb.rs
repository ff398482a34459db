//! Varint and fixed-width primitives of the wire format, with their
//! mathematical models.
//!
//! A varint stores 7 payload bits per byte, least significant group first;
//! a set high bit means "more bytes follow". Fixed32/fixed64 values are
//! little-endian byte reinterpretations.

use vstd::prelude::*;

use crate::{DecodingError, NeedMoreBytes};

verus! {

/// The value carried by the first `n` bytes of `data` read as varint groups:
/// 7 bits per byte, first byte least significant. Bits beyond the 64th are
/// discarded, as the shifts of the decoder discard them.
pub open spec fn varint_value(data: Seq<u8>, n: int) -> u64
    decreases n,
{
    if n <= 0 {
        0u64
    } else {
        ((data[0] & 0x7f) as u64) | (varint_value(data.skip(1), n - 1) << 7u64)
    }
}

/// The index of the first byte at or after `i` whose high bit is clear (the
/// byte that terminates a varint), or `data.len()` if every remaining byte
/// has its high bit set.
pub open spec fn varint_end(data: Seq<u8>, i: int) -> int
    decreases data.len() - i,
{
    if i < 0 || i >= data.len() {
        data.len() as int
    } else if data[i] < 0x80 {
        i
    } else {
        varint_end(data, i + 1)
    }
}

/// What decoding a varint of at most `max` bytes from the front of `data`
/// yields.
pub enum VarintParse {
    /// The buffer ended before a terminating byte and before `max` bytes
    /// were seen: more input may still complete the varint.
    NeedMore,
    /// `max` bytes were seen and every one had its continuation bit set.
    TooMany,
    /// A terminated varint: the bytes consumed and the decoded value.
    Done { consumed: int, value: u64 },
}

/// Decoding a varint of at most `max` bytes from the front of `data`.
pub open spec fn parse_varint(data: Seq<u8>, max: int) -> VarintParse {
    let e = varint_end(data, 0);
    if e < max && e < data.len() {
        VarintParse::Done { consumed: e + 1, value: varint_value(data, e + 1) }
    } else if data.len() < max {
        VarintParse::NeedMore
    } else {
        VarintParse::TooMany
    }
}

/// The little-endian value of the first four bytes.
pub open spec fn le_u32(data: Seq<u8>) -> u32
    recommends
        data.len() >= 4,
{
    (data[0] as u32) | ((data[1] as u32) << 8u32) | ((data[2] as u32) << 16u32) | ((data[3]
        as u32) << 24u32)
}

/// The little-endian value of the first eight bytes.
pub open spec fn le_u64(data: Seq<u8>) -> u64
    recommends
        data.len() >= 8,
{
    (data[0] as u64) | ((data[1] as u64) << 8u64) | ((data[2] as u64) << 16u64) | ((data[3]
        as u64) << 24u64) | ((data[4] as u64) << 32u64) | ((data[5] as u64) << 40u64) | ((data[6]
        as u64) << 48u64) | ((data[7] as u64) << 56u64)
}

/// Scanning for the terminator: the scan runs to the first byte with a clear
/// high bit, every byte before it has its high bit set, and nothing after
/// the first such byte matters.
pub proof fn lemma_varint_end_spec(data: Seq<u8>, i: int)
    requires
        0 <= i <= data.len(),
    ensures
        i <= varint_end(data, i) <= data.len(),
        forall|j: int| i <= j < varint_end(data, i) ==> data[j] >= 0x80,
        varint_end(data, i) < data.len() ==> data[varint_end(data, i)] < 0x80,
    decreases data.len() - i,
{
    if i < data.len() && data[i] >= 0x80 {
        lemma_varint_end_spec(data, i + 1);
    }
}

/// Appending one more byte to the decoded prefix merges its payload bits
/// seven positions higher.
pub proof fn lemma_varint_value_extend(data: Seq<u8>, n: int)
    requires
        0 <= n <= 9,
        n < data.len(),
    ensures
        varint_value(data, n + 1) == varint_value(data, n) | (((data[n] & 0x7f) as u64) << (
        7 * n) as u64),
    decreases n,
{
    if n == 0 {
        let b = (data[0] & 0x7f) as u64;
        assert(varint_value(data.skip(1), 0) == 0u64);
        assert(varint_value(data, 0) == 0u64);
        assert(b | (0u64 << 7u64) == 0u64 | (b << 0u64)) by (bit_vector);
    } else {
        let rest = data.skip(1);
        lemma_varint_value_extend(rest, n - 1);
        assert(rest[n - 1] == data[n]);
        let a = varint_value(rest, n - 1);
        let x = (data[n] & 0x7f) as u64;
        let b0 = (data[0] & 0x7f) as u64;
        let s = (7 * (n - 1)) as u64;
        assert(varint_value(rest, n) == a | (x << s));
        assert(b0 | ((a | (x << s)) << 7u64) == (b0 | (a << 7u64)) | (x << (s + 7) as u64))
            by (bit_vector)
            requires
                s <= 56u64,
        ;
        assert((s + 7) as u64 == (7 * n) as u64);
    }
}

/// The decoded value of a prefix depends only on the bytes of that prefix.
pub proof fn lemma_varint_value_agree(d1: Seq<u8>, d2: Seq<u8>, n: int)
    requires
        0 <= n <= d1.len(),
        n <= d2.len(),
        forall|j: int| 0 <= j < n ==> d1[j] == d2[j],
    ensures
        varint_value(d1, n) == varint_value(d2, n),
    decreases n,
{
    if n > 0 {
        let r1 = d1.skip(1);
        let r2 = d2.skip(1);
        assert(forall|j: int| 0 <= j < n - 1 ==> r1[j] == r2[j]);
        lemma_varint_value_agree(r1, r2, n - 1);
    }
}

/// Reads a varint of at most `max_bytes` bytes (10 covers any 64-bit value)
/// from the front of `data`. Returns the bytes consumed and the value; a
/// distinguished "need more bytes" outcome if the buffer ended first; or a
/// hard decode error once `max_bytes` continuation-flagged bytes have been
/// seen, which caps the work spent on a malformed unterminated varint.
pub fn read_varint(data: &[u8], max_bytes: usize) -> (r: Result<
    Result<(usize, u64), NeedMoreBytes>,
    DecodingError,
>)
    requires
        1 <= max_bytes <= 10,
    ensures
        ({
            let p = parse_varint(data@, max_bytes as int);
            match r {
                Ok(Ok((count, val))) => p == (VarintParse::Done {
                    consumed: count as int,
                    value: val,
                }) && 0 < count <= data@.len() && count <= max_bytes,
                Ok(Err(_)) => p is NeedMore,
                Err(e) => p is TooMany && e == if max_bytes <= 5 {
                    DecodingError::TooManyVarint32Bytes
                } else {
                    DecodingError::TooManyVarint64Bytes
                },
            }
        }),
{
    let mut val: u64 = 0;
    let mut count: usize = 0;

    proof {
        lemma_varint_end_spec(data@, 0);
    }

    while count < max_bytes && count < data.len()
        invariant
            0 <= count <= max_bytes,
            count <= data@.len(),
            1 <= max_bytes <= 10,
            val == varint_value(data@, count as int),
            forall|j: int| 0 <= j < count ==> data@[j] >= 0x80,
            varint_end_facts(data@),
        decreases max_bytes - count,
    {
        let b = data[count];
        proof {
            lemma_varint_value_extend(data@, count as int);
            assert((b & 0x80 == 0) == (b < 0x80)) by (bit_vector);
        }
        val = val | (((b & 0x7f) as u64) << ((7 * count) as u64));
        count = count + 1;

        if b & 0x80 == 0 {
            proof {
                assert(varint_end(data@, 0) == count - 1);
            }
            return Ok(Ok((count, val)));
        }
    }

    proof {
        assert(varint_end(data@, 0) >= count);
    }
    if count < max_bytes {
        Ok(Err(NeedMoreBytes))
    } else if max_bytes <= 5 {
        Err(DecodingError::TooManyVarint32Bytes)
    } else {
        Err(DecodingError::TooManyVarint64Bytes)
    }
}

/// The facts of `lemma_varint_end_spec`, packaged so a loop can carry them.
pub open spec fn varint_end_facts(data: Seq<u8>) -> bool {
    0 <= varint_end(data, 0) <= data.len() && (forall|j: int|
        0 <= j < varint_end(data, 0) ==> data[j] >= 0x80) && (varint_end(data, 0) < data.len()
        ==> data[varint_end(data, 0)] < 0x80)
}

/// Reads a 32-bit varint: at most 5 bytes; payload bits beyond the 32nd are
/// discarded.
pub fn read_varint32(data: &[u8]) -> (r: Result<Result<(usize, u32), NeedMoreBytes>, DecodingError>)
    ensures
        ({
            let p = parse_varint(data@, 5);
            match r {
                Ok(Ok((count, val))) => p matches VarintParse::Done { consumed, value }
                    && consumed == count && val == value as u32 && 0 < count <= data@.len()
                    && count <= 5,
                Ok(Err(_)) => p is NeedMore,
                Err(e) => p is TooMany && e == DecodingError::TooManyVarint32Bytes,
            }
        }),
{
    match read_varint(data, 5)? {
        Ok((bytes, val)) => Ok(Ok((bytes, #[verifier::truncate] (val as u32)))),
        Err(e) => Ok(Err(e)),
    }
}

/// Reads a 64-bit varint: at most 10 bytes.
pub fn read_varint64(data: &[u8]) -> (r: Result<Result<(usize, u64), NeedMoreBytes>, DecodingError>)
    ensures
        ({
            let p = parse_varint(data@, 10);
            match r {
                Ok(Ok((count, val))) => p == (VarintParse::Done {
                    consumed: count as int,
                    value: val,
                }) && 0 < count <= data@.len() && count <= 10,
                Ok(Err(_)) => p is NeedMore,
                Err(e) => p is TooMany && e == DecodingError::TooManyVarint64Bytes,
            }
        }),
{
    read_varint(data, 10)
}

/// Reads a little-endian 32-bit value, which needs the full four bytes to be
/// present.
pub fn read_fixed32(data: &[u8]) -> (r: Result<(usize, u32), NeedMoreBytes>)
    ensures
        data@.len() >= 4 ==> (r matches Ok((consumed, val)) && consumed == 4usize && val == le_u32(
            data@,
        )),
        data@.len() < 4 ==> r is Err,
{
    if data.len() < 4 {
        Err(NeedMoreBytes)
    } else {
        let val = (data[0] as u32) | ((data[1] as u32) << 8u32) | ((data[2] as u32) << 16u32) | ((
        data[3] as u32) << 24u32);
        Ok((4, val))
    }
}

/// Reads a little-endian 64-bit value, which needs the full eight bytes to
/// be present.
pub fn read_fixed64(data: &[u8]) -> (r: Result<(usize, u64), NeedMoreBytes>)
    ensures
        data@.len() >= 8 ==> (r matches Ok((consumed, val)) && consumed == 8usize && val == le_u64(
            data@,
        )),
        data@.len() < 8 ==> r is Err,
{
    if data.len() < 8 {
        Err(NeedMoreBytes)
    } else {
        let val = (data[0] as u64) | ((data[1] as u64) << 8u64) | ((data[2] as u64) << 16u64) | ((
        data[3] as u64) << 24u64) | ((data[4] as u64) << 32u64) | ((data[5] as u64) << 40u64) | ((
        data[6] as u64) << 48u64) | ((data[7] as u64) << 56u64);
        Ok((8, val))
    }
}

/// The bytes the greedy varint emitter produces: 7 bits at a time, least
/// significant first, until the value runs out. Nothing at all for zero.
pub open spec fn varint_bytes_spec(v: u64) -> Seq<u8>
    decreases v,
    via varint_bytes_spec_dec
{
    if v == 0 {
        Seq::empty()
    } else {
        let b: u8 = if v < 0x80 {
            v as u8
        } else {
            ((v & 0x7f) | 0x80) as u8
        };
        seq![b] + varint_bytes_spec(v >> 7u64)
    }
}

#[via_fn]
proof fn varint_bytes_spec_dec(v: u64) {
    assert(v > 0 ==> (v >> 7u64) < v) by (bit_vector);
}

/// The varint encoding of `v`: as an encoder emits it, with zero as the
/// single byte 0.
pub open spec fn encode_varint(v: u64) -> Seq<u8> {
    if v == 0 {
        seq![0u8]
    } else {
        varint_bytes_spec(v)
    }
}

/// The little-endian bytes of a 32-bit value.
pub open spec fn le32_bytes(x: u32) -> Seq<u8> {
    seq![x as u8, (x >> 8u32) as u8, (x >> 16u32) as u8, (x >> 24u32) as u8]
}

/// The little-endian bytes of a 64-bit value.
pub open spec fn le64_bytes(x: u64) -> Seq<u8> {
    seq![
        x as u8,
        (x >> 8u64) as u8,
        (x >> 16u64) as u8,
        (x >> 24u64) as u8,
        (x >> 32u64) as u8,
        (x >> 40u64) as u8,
        (x >> 48u64) as u8,
        (x >> 56u64) as u8,
    ]
}

/// A value whose top bits beyond `7 * (k - 1)` are clear encodes in at most
/// `k` bytes.
pub proof fn lemma_encode_varint_len(v: u64, k: int)
    requires
        1 <= k <= 10,
        (v >> ((7 * (k - 1)) as u64)) < 0x80,
    ensures
        1 <= encode_varint(v).len() <= k,
    decreases k,
{
    if v == 0 {
    } else if v < 0x80 {
        assert(varint_bytes_spec(v) =~= seq![v as u8] + varint_bytes_spec(v >> 7u64));
        assert(v > 0 && v < 0x80 ==> v >> 7u64 == 0) by (bit_vector);
    } else {
        assert(v >= 0x80 ==> !((v >> 0u64) < 0x80)) by (bit_vector);
        assert(k >= 2);
        let s = (7 * (k - 2)) as u64;
        assert((v >> 7u64) >> s == v >> ((s + 7) as u64)) by (bit_vector)
            requires
                s <= 56u64,
        ;
        lemma_encode_varint_len(v >> 7u64, k - 1);
        assert(v >= 0x80 ==> v >> 7u64 > 0) by (bit_vector);
    }
}

/// The varint encoding carries its value: every byte but the last has the
/// continuation bit, the last does not, and decoding the bytes gives the
/// value back.
#[verifier::rlimit(30)]
#[verifier::spinoff_prover]
pub proof fn lemma_encode_varint_props(v: u64)
    ensures
        ({
            let enc = encode_varint(v);
            &&& 1 <= enc.len() <= 10
            &&& (v <= 0xffff_ffff ==> enc.len() <= 5)
            &&& (forall|j: int| 0 <= j < enc.len() - 1 ==> enc[j] >= 0x80)
            &&& enc[enc.len() - 1] < 0x80
            &&& varint_value(enc, enc.len() as int) == v
        }),
    decreases v,
{
    assert(v >> 63u64 < 0x80) by (bit_vector);
    lemma_encode_varint_len(v, 10);
    if v <= 0xffff_ffff {
        assert(v <= 0xffff_ffff ==> v >> 28u64 < 0x80) by (bit_vector);
        lemma_encode_varint_len(v, 5);
    }
    let enc = encode_varint(v);
    if v == 0 {
        assert(enc =~= seq![0u8]);
        assert(varint_value(enc, 1) == (enc[0] & 0x7f) as u64 | (varint_value(enc.skip(1), 0)
            << 7u64));
        assert((0u8 & 0x7f) as u64 | (0u64 << 7u64) == 0u64) by (bit_vector);
        assert(varint_value(enc, enc.len() as int) == v);
    } else if v < 0x80 {
        assert(v > 0 && v < 0x80 ==> v >> 7u64 == 0) by (bit_vector);
        assert(varint_bytes_spec(0u64) == Seq::<u8>::empty());
        assert(enc =~= seq![v as u8]);
        assert(v < 0x80 ==> ((v as u8) & 0x7f) as u64 | (0u64 << 7u64) == v) by (bit_vector);
        assert(varint_value(enc, 1) == (enc[0] & 0x7f) as u64 | (varint_value(enc.skip(1), 0)
            << 7u64));
        assert(varint_value(enc, enc.len() as int) == v);
    } else {
        let b: u8 = ((v & 0x7f) | 0x80) as u8;
        let w = v >> 7u64;
        assert(v >= 0x80 ==> 0 < v >> 7u64 < v) by (bit_vector);
        lemma_encode_varint_props(w);
        let rest = encode_varint(w);
        assert(enc =~= seq![b] + rest);
        assert(enc.skip(1) =~= rest);
        assert(v >= 0x80 ==> ((((v & 0x7f) | 0x80) as u8) >= 0x80)) by (bit_vector);
        assert(varint_value(enc, enc.len() as int) == (b & 0x7f) as u64 | (varint_value(
            rest,
            rest.len() as int,
        ) << 7u64));
        assert(v >= 0x80 ==> ((((v & 0x7f) | 0x80) as u8) & 0x7f) as u64 | ((v >> 7u64)
            << 7u64) == v) by (bit_vector);
        assert(varint_value(enc, enc.len() as int) == v);
    }
    assert(forall|j: int| 0 <= j < enc.len() - 1 ==> #[trigger] enc[j] >= 0x80);
}

/// Cutting an already-decodable varint short always yields "need more
/// bytes", never a value and never an error.
pub proof fn lemma_parse_varint_prefix(data: Seq<u8>, max: int, k: int)
    requires
        1 <= max <= 10,
        parse_varint(data, max) is Done,
        0 < k <= varint_end(data, 0),
    ensures
        parse_varint(data.take(k), max) is NeedMore,
{
    lemma_varint_end_spec(data, 0);
    let cut = data.take(k);
    lemma_varint_end_spec(cut, 0);
    assert(forall|j: int| 0 <= j < k ==> #[trigger] cut[j] == data[j]);
    assert(varint_end(cut, 0) == k);
}

/// A decoded varint depends only on the bytes up to its terminator: any
/// buffer that carries the same bytes there decodes the same way.
pub proof fn lemma_parse_varint_agree(d1: Seq<u8>, d2: Seq<u8>, max: int)
    requires
        1 <= max <= 10,
        parse_varint(d1, max) is Done,
        d2.len() >= varint_end(d1, 0) + 1,
        forall|j: int| 0 <= j <= varint_end(d1, 0) ==> d1[j] == #[trigger] d2[j],
    ensures
        parse_varint(d2, max) == parse_varint(d1, max),
{
    let e = varint_end(d1, 0);
    lemma_varint_end_spec(d1, 0);
    lemma_varint_end_spec(d2, 0);
    assert(d2[e] == d1[e]);
    assert(forall|j: int| 0 <= j < e ==> #[trigger] d2[j] >= 0x80);
    assert(varint_end(d2, 0) == e);
    lemma_varint_value_agree(d1, d2, e + 1);
}

/// A buffer that starts with the encoding of `v` decodes to exactly `v`,
/// consuming exactly the encoding, whatever follows it.
pub proof fn lemma_parse_encoded_varint(data: Seq<u8>, v: u64, max: int)
    requires
        data.take(encode_varint(v).len() as int) == encode_varint(v),
        encode_varint(v).len() <= data.len(),
        encode_varint(v).len() <= max,
    ensures
        parse_varint(data, max) == (VarintParse::Done {
            consumed: encode_varint(v).len() as int,
            value: v,
        }),
{
    let enc = encode_varint(v);
    let n = enc.len() as int;
    lemma_encode_varint_props(v);
    assert(forall|j: int| 0 <= j < n ==> #[trigger] data[j] == enc[j]);
    lemma_varint_end_spec(data, 0);
    assert(varint_end(data, 0) == n - 1);
    lemma_varint_value_agree(data, enc, n);
}

} // verus!
