//! Driving the field-matching state machine: skipping with bounded memory,
//! nested-message boundaries, and idling at the end of the stream.

use minipb::matcher_fields::{Cont, Matched, Matcher, MatcherFields, Skip, Value};
use minipb::{DecodingError, FieldValue, ReadField, Status};

/// Tags everything, skips everything.
struct SkipAll;

#[derive(Debug, PartialEq)]
struct Uninteresting(u32);

impl Matcher for SkipAll {
    type Tag = Uninteresting;

    fn decide_before(
        &mut self,
        _offset: usize,
        read: &ReadField,
    ) -> Result<Result<Cont<Uninteresting>, Skip<Uninteresting>>, DecodingError> {
        Ok(Err(Skip(Uninteresting(read.field_id()))))
    }

    fn decide_after(&mut self, _offset: usize) -> (bool, Option<Uninteresting>) {
        (false, None)
    }
}

#[test]
fn skipping_is_memory_bounded() {
    // field id 1, length-delimited, 300 payload bytes
    let mut input = vec![0x0a, 0xac, 0x02];
    input.extend(std::iter::repeat(0x5a).take(300));

    let mut fm = MatcherFields::new(SkipAll);
    let mut retained: Vec<u8> = Vec::new();
    let mut matched = None;

    for (i, byte) in input.iter().enumerate() {
        retained.push(*byte);
        // the driver never asks for more than the three header bytes to be
        // retained; payload bytes are dropped as they arrive
        assert!(retained.len() <= 3);

        let before = retained.len();
        let mut buf = &retained[..];
        match fm.next(&mut buf).unwrap() {
            Ok(m) => {
                assert_eq!(i, input.len() - 1);
                matched = Some(m);
            }
            Err(Status::NeedMoreBytes) => {}
            Err(Status::IdleAtEndOfBuffer) => panic!("mid-field idle at byte {}", i),
        }
        let consumed = before - buf.len();
        retained.drain(..consumed);
    }

    // the offset advanced by exactly header + declared length
    assert_eq!(fm.offset(), 3 + 300);
    assert!(retained.is_empty());
    let matched = matched.expect("the skipped field is reported once it has passed");
    assert_eq!(matched.tag, Uninteresting(1));
    assert_eq!(matched.offset, 0);
    assert!(matches!(matched.value, Value::Slice(ref r) if *r == (3..303)));
}

/// The dag-pb walk: descend into each outer link field, read its parts.
#[derive(Debug)]
enum MerkleDag {
    Top,
    Link { until: usize },
}

#[derive(Debug, PartialEq)]
enum DagPbElement {
    StartPbLink,
    EndPbLink,
    PbLinkHash,
    PbLinkName,
    PbLinkTotalSize,
    PbLinkExtraField(u32),
    TopExtraField(u32),
}

impl Matcher for MerkleDag {
    type Tag = DagPbElement;

    fn decide_before(
        &mut self,
        offset: usize,
        read: &ReadField,
    ) -> Result<Result<Cont<DagPbElement>, Skip<DagPbElement>>, DecodingError> {
        match self {
            MerkleDag::Top if read.field_id() == 2 => {
                *self = MerkleDag::Link {
                    until: offset + read.bytes_to_skip(),
                };
                return Ok(Ok(Cont::Message(Some(DagPbElement::StartPbLink))));
            }
            MerkleDag::Top => {}
            MerkleDag::Link { until } => {
                if offset >= *until {
                    return Err(DecodingError::FailedMatcherNesting(offset, *until));
                }

                return Ok(match read.field_id() {
                    1 => Ok(Cont::ReadSlice(DagPbElement::PbLinkHash)),
                    2 => Ok(Cont::ReadSlice(DagPbElement::PbLinkName)),
                    3 if !read.is_length_delimited() => {
                        Ok(Cont::ReadValue(DagPbElement::PbLinkTotalSize))
                    }
                    x => Err(Skip(DagPbElement::PbLinkExtraField(x))),
                });
            }
        }

        Ok(Err(Skip(DagPbElement::TopExtraField(read.field_id()))))
    }

    fn decide_after(&mut self, offset: usize) -> (bool, Option<DagPbElement>) {
        match self {
            MerkleDag::Link { until } if offset == *until => {
                *self = MerkleDag::Top;
                (false, Some(DagPbElement::EndPbLink))
            }
            _ => (false, None),
        }
    }
}

/// One encoded PBLink message under outer field id 2: hash "AB", name "x",
/// total size 5. Header is 2 bytes, payload 9.
fn dag_pb_link() -> Vec<u8> {
    let mut payload = Vec::new();
    payload.extend(FieldValue::DataLength(2).output_with_field_id(1));
    payload.extend_from_slice(b"AB");
    payload.extend(FieldValue::DataLength(1).output_with_field_id(2));
    payload.extend_from_slice(b"x");
    payload.extend(FieldValue::Varint(5).output_with_field_id(3));

    let mut message = FieldValue::DataLength(payload.len() as u32).output_with_field_id(2);
    message.extend(payload);
    message
}

#[test]
fn nested_scope_closes_at_declared_boundary() {
    let message = dag_pb_link();
    assert_eq!(message.len(), 11);

    let mut fm = MatcherFields::new(MerkleDag::Top);
    let mut buf = &message[..];
    let mut seen = Vec::new();
    loop {
        match fm.next(&mut buf).unwrap() {
            Ok(Matched { tag, offset, .. }) => seen.push((tag, offset)),
            Err(Status::IdleAtEndOfBuffer) => break,
            Err(Status::NeedMoreBytes) => panic!("complete message should not suspend"),
        }
    }

    // the scope opened at the header offset and closed exactly at
    // header offset + header length + declared length = 0 + 2 + 9
    assert_eq!(seen[0], (DagPbElement::StartPbLink, 0));
    assert_eq!(
        seen.last().unwrap(),
        &(DagPbElement::EndPbLink, 2 + 9)
    );
    assert_eq!(fm.offset(), 11);
}

#[test]
fn overrunning_the_declared_boundary_fails_nesting() {
    // outer field id 2 declares 3 payload bytes, but its first nested field
    // (id 1, length-delimited, 2 bytes) runs through offset 6
    let mut message = FieldValue::DataLength(3).output_with_field_id(2);
    message.extend(FieldValue::DataLength(2).output_with_field_id(1));
    message.extend_from_slice(b"AB");
    // the next field header starts at offset 6, past the boundary at 5
    message.extend(FieldValue::Varint(5).output_with_field_id(3));

    let mut fm = MatcherFields::new(MerkleDag::Top);
    let mut buf = &message[..];
    let mut err = None;
    loop {
        match fm.next(&mut buf) {
            Ok(Ok(_)) => {}
            Ok(Err(Status::IdleAtEndOfBuffer)) => panic!("should have failed before the end"),
            Ok(Err(Status::NeedMoreBytes)) => panic!("complete message should not suspend"),
            Err(e) => {
                err = Some(e);
                break;
            }
        }
    }
    assert!(matches!(
        err,
        Some(DecodingError::FailedMatcherNesting(6, 5))
    ));
}

#[test]
fn idle_at_end_is_idempotent() {
    let message = dag_pb_link();

    let mut fm = MatcherFields::new(MerkleDag::Top);
    let mut buf = &message[..];
    let mut idles = 0;
    while idles < 4 {
        match fm.next(&mut buf).unwrap() {
            Ok(_) => {}
            Err(Status::IdleAtEndOfBuffer) => idles += 1,
            Err(Status::NeedMoreBytes) => panic!("complete message should not suspend"),
        }
    }

    // nothing changed across the repeated idle calls
    assert!(buf.is_empty());
    assert!(fm.is_idle());
    assert_eq!(fm.offset(), message.len() as u64);
}

#[test]
fn scalars_are_emitted_with_their_values() {
    struct ReadThird;
    impl Matcher for ReadThird {
        type Tag = ();

        fn decide_before(
            &mut self,
            _offset: usize,
            read: &ReadField,
        ) -> Result<Result<Cont<()>, Skip<()>>, DecodingError> {
            Ok(if read.is_length_delimited() {
                Err(Skip(()))
            } else {
                Ok(Cont::ReadValue(()))
            })
        }

        fn decide_after(&mut self, _offset: usize) -> (bool, Option<()>) {
            (false, None)
        }
    }

    let mut message = FieldValue::Varint(300).output_with_field_id(1);
    message.extend(FieldValue::Fixed32(7).output_with_field_id(2));
    message.extend(FieldValue::Fixed64(8).output_with_field_id(3));

    let mut fm = MatcherFields::new(ReadThird);
    let mut buf = &message[..];
    let mut values = Vec::new();
    loop {
        match fm.next(&mut buf).unwrap() {
            Ok(m) => values.push(m.value),
            Err(Status::IdleAtEndOfBuffer) => break,
            Err(Status::NeedMoreBytes) => panic!("complete message should not suspend"),
        }
    }
    assert!(matches!(values[0], Value::Varint(300)));
    assert!(matches!(values[1], Value::Fixed32(7)));
    assert!(matches!(values[2], Value::Fixed64(8)));
}
