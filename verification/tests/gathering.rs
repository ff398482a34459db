//! Aggregating matched fields: out-of-order parts, retention watermarks,
//! and the end-to-end link extraction scenario.

use std::ops::Range;

use minipb::gather_fields::{GatheredFields, Gatherer};
use minipb::matcher_fields::{Cont, Matched, Matcher, MatcherFields, Skip, SlicedValue, Value};
use minipb::{DecodingError, FieldValue, ReadField, Slicer, Status};

#[derive(Debug)]
enum MerkleDag {
    Top,
    Link { until: usize },
}

#[derive(Debug, PartialEq)]
enum DagPbElement {
    StartPbLink,
    EndPbLink,
    PbLinkHash,
    PbLinkName,
    PbLinkTotalSize,
    PbLinkExtraField(u32),
    TopExtraField(u32),
}

impl Matcher for MerkleDag {
    type Tag = DagPbElement;

    fn decide_before(
        &mut self,
        offset: usize,
        read: &ReadField,
    ) -> Result<Result<Cont<DagPbElement>, Skip<DagPbElement>>, DecodingError> {
        match self {
            MerkleDag::Top if read.field_id() == 2 => {
                *self = MerkleDag::Link {
                    until: offset + read.bytes_to_skip(),
                };
                return Ok(Ok(Cont::Message(Some(DagPbElement::StartPbLink))));
            }
            MerkleDag::Top => {}
            MerkleDag::Link { until } => {
                if offset >= *until {
                    return Err(DecodingError::FailedMatcherNesting(offset, *until));
                }

                return Ok(match read.field_id() {
                    1 => Ok(Cont::ReadSlice(DagPbElement::PbLinkHash)),
                    2 => Ok(Cont::ReadSlice(DagPbElement::PbLinkName)),
                    3 if !read.is_length_delimited() => {
                        Ok(Cont::ReadValue(DagPbElement::PbLinkTotalSize))
                    }
                    x => Err(Skip(DagPbElement::PbLinkExtraField(x))),
                });
            }
        }

        Ok(Err(Skip(DagPbElement::TopExtraField(read.field_id()))))
    }

    fn decide_after(&mut self, offset: usize) -> (bool, Option<DagPbElement>) {
        match self {
            MerkleDag::Link { until } if offset == *until => {
                *self = MerkleDag::Top;
                (false, Some(DagPbElement::EndPbLink))
            }
            _ => (false, None),
        }
    }
}

#[derive(Debug, PartialEq)]
struct PBLink {
    offset: Range<u64>,
    hash: Vec<u8>,
    name: String,
    total_size: u64,
}

#[derive(Default)]
struct PBLinkGatherer {
    start: Option<u64>,
    hash: Option<Range<u64>>,
    name: Option<Range<u64>>,
    total_size: Option<u64>,
}

impl Gatherer for PBLinkGatherer {
    type Tag = DagPbElement;
    type Returned = PBLink;

    fn update(
        &mut self,
        matched: Matched<DagPbElement>,
        slicer: Slicer<'_>,
    ) -> Result<Option<PBLink>, DecodingError> {
        let (field, value) = match matched {
            Matched {
                tag: DagPbElement::EndPbLink,
                offset,
                ..
            } => {
                // important that we don't keep these between links
                let values = (
                    self.start.take(),
                    self.hash.take(),
                    self.name.take(),
                    self.total_size.take(),
                );

                if let (Some(start), Some(hr), Some(nr), Some(total_size)) = values {
                    let hash = slicer.as_slice(&hr).to_vec();
                    let name = std::str::from_utf8(slicer.as_slice(&nr))
                        .map_err(|_| DecodingError::InvalidUtf8)?
                        .to_string();

                    return Ok(Some(PBLink {
                        offset: start..offset,
                        hash,
                        name,
                        total_size,
                    }));
                }

                return Ok(None);
            }
            Matched {
                tag: DagPbElement::PbLinkHash,
                value,
                ..
            } => (&mut self.hash, value),
            Matched {
                tag: DagPbElement::PbLinkName,
                value,
                ..
            } => (&mut self.name, value),
            Matched {
                tag: DagPbElement::PbLinkTotalSize,
                value,
                ..
            } => {
                self.total_size = match value {
                    Value::Varint(x) => Some(x),
                    _ => None,
                };
                return Ok(None);
            }
            Matched {
                tag: DagPbElement::StartPbLink,
                offset,
                ..
            } => {
                self.start = Some(offset);
                return Ok(None);
            }
            Matched { .. } => return Ok(None),
        };

        *field = match value {
            Value::Slice(range) => Some(range),
            _ => None,
        };

        Ok(None)
    }

    fn min_offset(&self) -> Option<u64> {
        let h = self.hash.as_ref().map(|r| r.start);
        let n = self.name.as_ref().map(|r| r.start);
        match (h, n) {
            (Some(h), Some(n)) => Some(h.min(n)),
            (Some(x), _) | (_, Some(x)) => Some(x),
            _ => None,
        }
    }
}

/// A link whose name arrives before its hash, with unrelated fields mixed
/// in between. Returns the message and the expected aggregate.
fn out_of_order_link() -> (Vec<u8>, PBLink) {
    let mut payload = Vec::new();
    // name first...
    payload.extend(FieldValue::DataLength(3).output_with_field_id(2));
    payload.extend_from_slice(b"dir");
    // ...an unrelated field to skip...
    payload.extend(FieldValue::Varint(99).output_with_field_id(9));
    // ...then the hash, then the size
    payload.extend(FieldValue::DataLength(4).output_with_field_id(1));
    payload.extend_from_slice(&[0x12, 0x20, 0xaa, 0xbb]);
    payload.extend(FieldValue::Varint(1000).output_with_field_id(3));

    let mut message = FieldValue::DataLength(payload.len() as u32).output_with_field_id(2);
    let header_len = message.len() as u64;
    message.extend(payload.iter().copied());

    let expected = PBLink {
        offset: 0..(header_len + payload.len() as u64),
        hash: vec![0x12, 0x20, 0xaa, 0xbb],
        name: "dir".to_string(),
        total_size: 1000,
    };
    (message, expected)
}

#[test]
fn gatherer_retains_out_of_order_fields() {
    let (message, expected) = out_of_order_link();

    let mut gf = GatheredFields::new(MerkleDag::Top, PBLinkGatherer::default());

    // feed one byte at a time, dropping only what the driver lets go of
    let mut retained: Vec<u8> = Vec::new();
    let mut results: Vec<PBLink> = Vec::new();
    let mut retained_start: u64 = 0;

    for byte in message.iter() {
        retained.push(*byte);
        loop {
            let mut buf = &retained[..];
            let before = buf.len();
            let step = gf.next(&mut buf).unwrap();
            let consumed = before - buf.len();

            // the driver never advances past the watermark of a pending
            // aggregate: every byte at or after it stays retained
            if let Some(min) = gf.cached_min_offset {
                assert_eq!(consumed, 0);
                assert!(retained_start <= min);
            }
            retained.drain(..consumed);
            retained_start += consumed as u64;

            match step {
                Ok(link) => results.push(link),
                Err(Status::NeedMoreBytes) | Err(Status::IdleAtEndOfBuffer) => break,
            }
        }
    }

    assert_eq!(results, vec![expected]);
}

#[test]
fn end_to_end_link_extraction() {
    // one outer field (id 2, length-delimited) wrapping three inner fields:
    // id 1 bytes "AB", id 2 string "x", id 3 varint 5
    let mut payload = Vec::new();
    payload.extend(FieldValue::DataLength(2).output_with_field_id(1));
    payload.extend_from_slice(&[0x41, 0x42]);
    payload.extend(FieldValue::DataLength(1).output_with_field_id(2));
    payload.extend_from_slice(b"x");
    payload.extend(FieldValue::Varint(5).output_with_field_id(3));
    let mut message = FieldValue::DataLength(payload.len() as u32).output_with_field_id(2);
    message.extend(payload);

    let mut gf = GatheredFields::new(MerkleDag::Top, PBLinkGatherer::default());
    let mut buf = &message[..];
    let mut results = Vec::new();
    loop {
        match gf.next(&mut buf).unwrap() {
            Ok(link) => results.push(link),
            Err(Status::IdleAtEndOfBuffer) => break,
            Err(Status::NeedMoreBytes) => panic!("complete message should not suspend"),
        }
    }

    assert_eq!(results.len(), 1);
    let link = &results[0];
    assert_eq!(link.hash, vec![0x41, 0x42]);
    assert_eq!(link.name, "x");
    assert_eq!(link.total_size, 5);
    assert_eq!(link.offset, 0..(message.len() as u64));
}

#[test]
fn invalid_utf8_in_a_name_fails_the_decode() {
    // a link whose name is not UTF-8: the gatherer rejects the aggregate
    let mut payload = Vec::new();
    payload.extend(FieldValue::DataLength(2).output_with_field_id(1));
    payload.extend_from_slice(&[0x41, 0x42]);
    payload.extend(FieldValue::DataLength(1).output_with_field_id(2));
    payload.extend_from_slice(&[0xff]);
    payload.extend(FieldValue::Varint(5).output_with_field_id(3));
    let mut message = FieldValue::DataLength(payload.len() as u32).output_with_field_id(2);
    message.extend(payload);

    let mut gf = GatheredFields::new(MerkleDag::Top, PBLinkGatherer::default());
    let mut buf = &message[..];
    let err = loop {
        match gf.next(&mut buf) {
            Ok(Ok(_)) => panic!("no aggregate should come out of a bad name"),
            Ok(Err(status)) => panic!("complete message should not suspend: {:?}", status),
            Err(e) => break e,
        }
    };
    assert!(matches!(err, DecodingError::InvalidUtf8));
}

#[test]
fn sliced_matches_carry_their_bytes() {
    let mut fm = MatcherFields::new(MerkleDag::Top).into_sliced();

    let mut payload = Vec::new();
    payload.extend(FieldValue::DataLength(2).output_with_field_id(1));
    payload.extend_from_slice(&[0x41, 0x42]);
    let mut message = FieldValue::DataLength(payload.len() as u32).output_with_field_id(2);
    message.extend(payload);

    let mut buf = &message[..];
    let mut hashes = Vec::new();
    loop {
        match fm.next(&mut buf).unwrap() {
            Ok(m) => {
                if let SlicedValue::Slice(range, bytes) = m.value {
                    assert_eq!(range, 4..6);
                    hashes.push(bytes.to_vec());
                }
            }
            Err(Status::IdleAtEndOfBuffer) => break,
            Err(Status::NeedMoreBytes) => panic!("complete message should not suspend"),
        }
    }
    assert_eq!(hashes, vec![vec![0x41, 0x42]]);
}

#[test]
fn slicer_resolves_ranges_against_the_window() {
    let bytes = [10u8, 11, 12, 13, 14];
    // the last byte of the window sits just before stream offset 105
    let slicer = Slicer::wrap(&bytes, 105);
    assert_eq!(slicer.as_slice(&(100..102)), &[10u8, 11][..]);
    assert_eq!(slicer.as_slice(&(104..105)), &[14u8][..]);
    assert_eq!(slicer.as_slice(&(103..103)), &[0u8; 0][..]);
}

#[test]
fn slice_len_reports_range_lengths() {
    assert_eq!(Value::Slice(3..10).slice_len(), Ok(7));
    assert_eq!(Value::Varint(3).slice_len(), Err(()));
    assert_eq!(Value::Marker.slice_len(), Err(()));
}
