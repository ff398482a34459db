//! Walking a field stream under a caller-supplied navigation policy.
//!
//! [`MatcherFields`] pulls fields off the buffer with a
//! [`FieldReader`](crate::field_reader::FieldReader), asks its [`Matcher`]
//! what to do with each one, and runs a four-state machine so that a slice
//! capture or a long skip can suspend mid-field and resume on a later call.
//! Across the whole session it owns a single monotonically increasing stream
//! offset, which is never reset.

use vstd::prelude::*;

use core::ops::Range;

use crate::field_reader::{parse_field, FieldParse, FieldReader, ParsedField};
use crate::gather_fields::Slicer;
use crate::{DecodingError, FieldValue, ReadField, Status};

verus! {

/// State machine one needs to write in order to know how to handle nested
/// fields. Implementations decide, field by field, whether to descend,
/// capture, or skip, and remember the byte offsets where nested scopes end.
pub trait Matcher {
    /// Tag describing to the caller how to process the field.
    type Tag;

    /// Advance the matcher on a new field read.
    ///
    /// Returns the direction to take with the field, either `Cont` or
    /// `Skip`; either way the field gets tagged. `Cont::ReadValue` may only
    /// be asked of non-length-delimited fields, whose scalar value has
    /// already been decoded.
    fn decide_before(&mut self, offset: usize, read: &ReadField) -> (r: Result<
        Result<Cont<Self::Tag>, Skip<Self::Tag>>,
        DecodingError,
    >)
        ensures
            r matches Ok(Ok(Cont::ReadValue(_))) ==> !(read.field.kind is LengthDelimited),
    ;

    /// How many more times `decide_after` may still answer "ask again".
    /// The driver's progress between bytes rests on this budget: a matcher
    /// must spend some of it with every such answer. A matcher that never
    /// answers "ask again" can leave the budget at its default of zero.
    open spec fn again_budget(&self) -> nat {
        0
    }

    /// Advance the matcher after a field has been processed. This can be
    /// called many times at the same offset, so that the matcher can emit
    /// one valueless tag per nested scope that ends there.
    ///
    /// Return `(true, _)` if this method needs to be called again on the
    /// same offset, `(false, _)` otherwise.
    fn decide_after(&mut self, offset: usize) -> (r: (bool, Option<Self::Tag>))
        ensures
            r.0 ==> final(self).again_budget() < old(self).again_budget(),
    ;
}

/// How far from `Ready` a driver state stands; with the matcher's remaining
/// budget it bounds the steps a driver can take without consuming a byte.
pub open spec fn state_rank<T>(s: State<T>) -> int {
    match s {
        State::Ready => 0,
        State::DecidingAfter => 1,
        State::Buffering(_, _, _, _) => 2,
        State::Skipping(_, _, _, _) => 2,
    }
}

/// The driver stepped forward without consuming a byte: its state rank or,
/// at equal rank, its matcher's remaining budget went down.
pub open spec fn progress_lt<M: Matcher>(post: MatcherFields<M>, pre: MatcherFields<M>) -> bool {
    ||| state_rank(post.state) < state_rank(pre.state)
    ||| (state_rank(post.state) == state_rank(pre.state) && post.matcher.again_budget()
        < pre.matcher.again_budget())
}

/// As [`progress_lt`], or nothing moved at all.
pub open spec fn progress_le<M: Matcher>(post: MatcherFields<M>, pre: MatcherFields<M>) -> bool {
    progress_lt(post, pre) || (state_rank(post.state) == state_rank(pre.state)
        && post.matcher.again_budget() == pre.matcher.again_budget())
}

/// The match was emitted by the very step that read the field whose header
/// starts at the match's offset: that field parses from there, a scalar
/// match carries its decoded value, and the call stops right after the
/// header, before any payload byte.
pub open spec fn header_step<T>(pre_buf: Seq<u8>, pre_off: u64, m: Matched<T>, post_off: u64) -> bool {
    &&& pre_off <= m.offset
    &&& m.offset - pre_off <= pre_buf.len()
    &&& (parse_field(pre_buf.skip(m.offset - pre_off)) matches FieldParse::Parsed(pf)
        && post_off == m.offset + pf.consumed && (match m.value {
        Value::Varint(x) => pf.value == FieldValue::Varint(x),
        Value::Fixed64(x) => pf.value == FieldValue::Fixed64(x),
        Value::Fixed32(x) => pf.value == FieldValue::Fixed32(x),
        _ => true,
    }))
}

/// The suspension states of the driver.
#[derive(Debug)]
pub enum State<T> {
    /// Initial state, and the only state in which the stream may end.
    Ready,
    /// A field was just processed; the matcher is asked which scopes close
    /// here, as long as it keeps answering "ask again".
    DecidingAfter,
    /// Waiting for a complete slice to be resident in one buffer window:
    /// the tag, the offset of the field header, the offset where the
    /// payload starts, and the payload length.
    Buffering(T, u64, u64, u64),
    /// Discarding a field without retaining it: the tag, the offset of the
    /// field header, the offset where the payload starts, and the bytes
    /// still to discard.
    Skipping(T, u64, u64, u64),
}

/// Uses a [`Matcher`] to match tagged fields from the byte stream.
pub struct MatcherFields<M: Matcher> {
    /// The stream offset of the next unprocessed byte: strictly monotone
    /// over the session, never reset.
    pub offset: u64,
    /// Decodes one field header at a time.
    pub reader: FieldReader,
    /// The caller-supplied navigation policy.
    pub matcher: M,
    /// Where in a field the driver currently stands.
    pub state: State<M::Tag>,
}

impl<M: Matcher> MatcherFields<M> {
    /// What the state machine maintains between calls: a pending slice
    /// starts exactly at the current offset, and a pending skip started at
    /// or before it.
    pub open spec fn wf(&self) -> bool {
        match self.state {
            State::Buffering(_, read_at, start, _) => read_at <= start && start == self.offset,
            State::Skipping(_, read_at, start, _) => read_at <= start && start <= self.offset,
            _ => true,
        }
    }

    pub fn new(matcher: M) -> (r: Self)
        ensures
            r.offset == 0,
            r.state is Ready,
            r.matcher == matcher,
            r.wf(),
    {
        Self { offset: 0, reader: FieldReader::default(), matcher, state: State::Ready }
    }

    pub fn offset(&self) -> (r: u64)
        ensures
            r == self.offset,
    {
        self.offset
    }

    /// Whether the driver stands between fields, where the stream may
    /// legitimately end.
    pub fn is_idle(&self) -> (r: bool)
        ensures
            r == (self.state is Ready),
    {
        match self.state {
            State::Ready => true,
            _ => false,
        }
    }

    /// One step of the state machine: consume what the current state calls
    /// for, and produce at most one match.
    fn advance(&mut self, buf: &mut &[u8]) -> (r: Result<
        Result<Option<Matched<M::Tag>>, Status>,
        DecodingError,
    >)
        requires
            old(self).wf(),
            old(self).offset + old(buf)@.len() <= u64::MAX,
        ensures
            final(self).wf(),
            old(self).offset <= final(self).offset <= old(self).offset + old(buf)@.len(),
            final(buf)@ == old(buf)@.skip(final(self).offset - old(self).offset),
            match old(self).state {
                State::Ready => match parse_field(old(buf)@) {
                    FieldParse::Idle => (r matches Ok(Err(Status::IdleAtEndOfBuffer))
                        && *final(self) == *old(self)),
                    FieldParse::NeedMore => (r matches Ok(Err(Status::NeedMoreBytes))
                        && *final(self) == *old(self)),
                    FieldParse::Fail(e0) => (r matches Err(e) && e == e0 && final(self).state
                        == old(self).state && final(self).offset == old(self).offset),
                    FieldParse::Parsed(pf) => {
                        &&& final(self).offset == old(self).offset + pf.consumed
                        &&& match r {
                            Err(_) => final(self).state is Ready,
                            Ok(Err(_)) => false,
                            Ok(Ok(None)) => {
                                &&& !(final(self).state is Ready)
                                &&& (final(self).state matches State::Buffering(_, ra, st, amt)
                                    ==> ra == old(self).offset && st == final(self).offset
                                    && amt == pf.skip_len())
                                &&& (final(self).state matches State::Skipping(_, ra, st, amt)
                                    ==> ra == old(self).offset && st == final(self).offset
                                    && amt == pf.skip_len())
                            },
                            Ok(Ok(Some(m))) => {
                                &&& final(self).state is DecidingAfter
                                &&& m.offset == old(self).offset
                                &&& !(m.value is Slice)
                                &&& (m.value matches Value::Varint(x) ==> pf.value
                                    == FieldValue::Varint(x))
                                &&& (m.value matches Value::Fixed64(x) ==> pf.value
                                    == FieldValue::Fixed64(x))
                                &&& (m.value matches Value::Fixed32(x) ==> pf.value
                                    == FieldValue::Fixed32(x))
                            },
                        }
                    },
                },
                State::DecidingAfter => {
                    &&& final(self).offset == old(self).offset
                    &&& final(self).reader == old(self).reader
                    &&& final(self).state is DecidingAfter || final(self).state is Ready
                    &&& (final(self).state is DecidingAfter ==> final(self).matcher.again_budget()
                        < old(self).matcher.again_budget())
                    &&& match r {
                        Ok(Ok(opt)) => opt matches Some(m) ==> m.offset == old(self).offset
                            && m.value is Marker,
                        _ => false,
                    }
                },
                State::Buffering(t, ra, st, amt) => if old(buf)@.len() < amt {
                    (r matches Ok(Err(Status::NeedMoreBytes)) && *final(self) == *old(self))
                } else {
                    &&& final(self).offset == old(self).offset + amt
                    &&& final(self).state is DecidingAfter
                    &&& final(self).reader == old(self).reader
                    &&& final(self).matcher == old(self).matcher
                    &&& (r matches Ok(Ok(Some(m))) && m.tag == t && m.offset == ra && m.value
                        == Value::Slice(Range { start: st, end: (st + amt) as u64 }))
                },
                State::Skipping(t, ra, st, amt) => {
                    &&& final(self).reader == old(self).reader
                    &&& final(self).matcher == old(self).matcher
                    &&& if amt <= old(buf)@.len() {
                        &&& final(self).offset == old(self).offset + amt
                        &&& final(self).state is DecidingAfter
                        &&& (r matches Ok(Ok(Some(m))) && m.tag == t && m.offset == ra
                            && m.value == Value::Slice(
                            Range { start: st, end: final(self).offset },
                        ))
                    } else {
                        &&& final(self).offset == old(self).offset + old(buf)@.len()
                        &&& final(buf)@.len() == 0
                        &&& final(self).state == State::Skipping(
                            t,
                            ra,
                            st,
                            (amt - old(buf)@.len()) as u64,
                        )
                        &&& (r matches Ok(Err(Status::NeedMoreBytes)))
                    }
                },
            },
    {
        let mut taken = State::Ready;
        core::mem::swap(&mut taken, &mut self.state);
        match taken {
            State::Ready => {
                let read = match self.reader.next(*buf) {
                    Err(e) => {
                        return Err(e);
                    },
                    Ok(Err(status)) => {
                        return Ok(Err(status));
                    },
                    Ok(Ok(read)) => read,
                };
                proof {
                    crate::field_reader::lemma_parse_field_parsed(old(buf)@);
                }
                let consumed = read.consumed();
                *buf = vstd::slice::slice_subrange(*buf, consumed, buf.len());
                let read_at = self.offset;
                self.offset = self.offset + consumed as u64;

                // when possibly going deeper, only one decision is enough
                let decision = match self.matcher.decide_before(
                    #[verifier::truncate] (read_at as usize),
                    &read,
                ) {
                    Err(e) => {
                        return Err(e);
                    },
                    Ok(d) => d,
                };

                match decision {
                    Ok(Cont::Message(maybe_tag)) => {
                        self.state = State::DecidingAfter;
                        match maybe_tag {
                            Some(tag) => Ok(
                                Ok(Some(Matched { tag, offset: read_at, value: Value::Marker })),
                            ),
                            None => Ok(Ok(None)),
                        }
                    },
                    Ok(Cont::ReadValue(tag)) => {
                        let value = match read.value() {
                            FieldValue::Varint(x) => Value::Varint(*x),
                            FieldValue::Fixed64(x) => Value::Fixed64(*x),
                            FieldValue::Fixed32(x) => Value::Fixed32(*x),
                            FieldValue::DataLength(_) => {
                                // the matcher's contract keeps `ReadValue`
                                // away from length-delimited fields
                                proof {
                                    assert(false);
                                }
                                vstd::pervasive::unreached()
                            },
                        };
                        self.state = State::DecidingAfter;
                        Ok(Ok(Some(Matched { tag, offset: read_at, value })))
                    },
                    Ok(Cont::ReadSlice(tag)) => {
                        self.state = State::Buffering(
                            tag,
                            read_at,
                            self.offset,
                            read.field_len() as u64,
                        );
                        Ok(Ok(None))
                    },
                    Err(Skip(tag)) => {
                        let total = read.field_len();
                        self.state = State::Skipping(tag, read_at, self.offset, total as u64);
                        Ok(Ok(None))
                    },
                }
            },
            State::DecidingAfter => {
                let (again, maybe_tag) = self.matcher.decide_after(
                    #[verifier::truncate] (self.offset as usize),
                );

                if !again {
                    // `again` would have been true if several levels of
                    // nested messages ended at the same byte
                    self.state = State::Ready;
                } else {
                    self.state = State::DecidingAfter;
                }

                match maybe_tag {
                    Some(tag) => Ok(
                        Ok(Some(Matched { tag, offset: self.offset, value: Value::Marker })),
                    ),
                    None => Ok(Ok(None)),
                }
            },
            State::Buffering(tag, read_at, start, amount) => {
                if (buf.len() as u64) < amount {
                    self.state = State::Buffering(tag, read_at, start, amount);
                    return Ok(Err(Status::NeedMoreBytes));
                }

                let amount_usize = amount as usize;
                *buf = vstd::slice::slice_subrange(*buf, amount_usize, buf.len());
                self.offset = self.offset + amount;
                self.state = State::DecidingAfter;

                Ok(
                    Ok(
                        Some(
                            Matched {
                                tag,
                                offset: read_at,
                                value: Value::Slice(start..self.offset),
                            },
                        ),
                    ),
                )
            },
            State::Skipping(tag, read_at, start, amount) => {
                let available = buf.len() as u64;
                let skipped = if amount < available {
                    amount
                } else {
                    available
                };

                self.offset = self.offset + skipped;
                *buf = vstd::slice::slice_subrange(*buf, skipped as usize, buf.len());

                let remaining = amount - skipped;

                if remaining == 0 {
                    self.state = State::DecidingAfter;
                    Ok(
                        Ok(
                            Some(
                                Matched {
                                    tag,
                                    offset: read_at,
                                    value: Value::Slice(start..self.offset),
                                },
                            ),
                        ),
                    )
                } else {
                    self.state = State::Skipping(tag, read_at, start, remaining);
                    Ok(Err(Status::NeedMoreBytes))
                }
            },
        }
    }

    /// Hands out the next tagged item, looping the state machine until it
    /// either produces one or must suspend. On `IdleAtEndOfBuffer` nothing
    /// was consumed and nothing changed, so calling again without new bytes
    /// keeps returning the same status. A scalar or marker match produced by
    /// the step that read a field header carries that header's start offset
    /// and, for scalars, the decoded value, with the call stopping right
    /// after the header; a marker emitted at a decision point carries the
    /// decision offset with nothing consumed.
    #[verifier::rlimit(80)]
    #[verifier::spinoff_prover]
    pub fn next(&mut self, buf: &mut &[u8]) -> (r: Result<
        Result<Matched<M::Tag>, Status>,
        DecodingError,
    >)
        requires
            old(self).wf(),
            old(self).offset + old(buf)@.len() <= u64::MAX,
        ensures
            final(self).wf(),
            old(self).offset <= final(self).offset <= old(self).offset + old(buf)@.len(),
            final(buf)@ == old(buf)@.skip(final(self).offset - old(self).offset),
            r matches Ok(Err(Status::IdleAtEndOfBuffer)) ==> final(self).state is Ready
                && final(buf)@.len() == 0,
            (old(self).state is Ready && old(buf)@.len() == 0) ==> (r matches Ok(
                Err(Status::IdleAtEndOfBuffer),
            ) && *final(self) == *old(self)),
            old(self).state is Ready ==> match parse_field(old(buf)@) {
                FieldParse::Idle => true,
                FieldParse::NeedMore => (r matches Ok(Err(Status::NeedMoreBytes)) && *final(self)
                    == *old(self)),
                FieldParse::Fail(e0) => (r matches Err(e) && e == e0 && final(self).offset == old(
                    self,
                ).offset),
                FieldParse::Parsed(pf) => final(self).offset >= old(self).offset + pf.consumed,
            },
            match old(self).state {
                State::Buffering(t, ra, st, amt) => if old(buf)@.len() < amt {
                    (r matches Ok(Err(Status::NeedMoreBytes)) && *final(self) == *old(self))
                } else {
                    &&& final(self).offset == old(self).offset + amt
                    &&& final(self).state is DecidingAfter
                    &&& (r matches Ok(Ok(m)) && m.tag == t && m.offset == ra && m.value
                        == Value::Slice(Range { start: st, end: (st + amt) as u64 }))
                },
                State::Skipping(t, ra, st, amt) => if amt <= old(buf)@.len() {
                    &&& final(self).offset == old(self).offset + amt
                    &&& final(self).state is DecidingAfter
                    &&& (r matches Ok(Ok(m)) && m.tag == t && m.offset == ra && m.value
                        == Value::Slice(
                        Range { start: st, end: (old(self).offset + amt) as u64 },
                    ))
                } else {
                    &&& final(self).offset == old(self).offset + old(buf)@.len()
                    &&& final(buf)@.len() == 0
                    &&& final(self).state == State::Skipping(
                        t,
                        ra,
                        st,
                        (amt - old(buf)@.len()) as u64,
                    )
                    &&& (r matches Ok(Err(Status::NeedMoreBytes)))
                },
                _ => true,
            },
            (r matches Ok(Ok(m2)) && final(self).offset == old(self).offset) ==> progress_lt(
                *final(self),
                *old(self),
            ),
            old(self).state is DecidingAfter ==> match r {
                Ok(Ok(m)) => final(self).offset == old(self).offset ==> m.value is Marker
                    && m.offset == old(self).offset,
                _ => true,
            },
            r matches Err(_) ==> final(self).state is Ready,
            match r {
                Ok(Ok(m)) => {
                    &&& m.offset <= final(self).offset
                    &&& (m.value matches Value::Slice(rg) ==> rg.end == final(self).offset
                        && rg.start <= rg.end && (match old(self).state {
                        State::Skipping(_, _, st, _) => rg.start == st,
                        _ => rg.start >= old(self).offset,
                    }))
                    &&& ((m.value is Varint || m.value is Fixed64 || m.value is Fixed32)
                        ==> m.offset < final(self).offset)
                    &&& ((!(m.value is Slice) && m.offset < final(self).offset) ==> header_step(
                        old(buf)@,
                        old(self).offset,
                        m,
                        final(self).offset,
                    ) && final(self).state is DecidingAfter)
                },
                _ => true,
            },
    {
        let ghost pre = *self;
        let ghost pre_buf = (*buf)@;
        proof {
            assert(pre_buf.skip(0) =~= pre_buf);
        }
        #[verifier::loop_isolation(false)]
        loop
            invariant
                self.wf(),
                self.offset + (*buf)@.len() <= u64::MAX,
                pre.offset <= self.offset <= pre.offset + pre_buf.len(),
                (*buf)@ == pre_buf.skip(self.offset - pre.offset),
                (pre.state is Ready && pre_buf.len() == 0) ==> *self == pre,
                pre.state is Skipping ==> *self == pre,
                pre.state is Buffering ==> *self == pre,
                pre.state is Ready ==> match parse_field(pre_buf) {
                    FieldParse::NeedMore => *self == pre,
                    FieldParse::Fail(_) => *self == pre,
                    FieldParse::Parsed(pf) => *self == pre || self.offset >= pre.offset
                        + pf.consumed,
                    FieldParse::Idle => true,
                },
                match self.state {
                    State::Skipping(_, _, st, _) => match pre.state {
                        State::Skipping(_, _, st0, _) => st == st0,
                        _ => st >= pre.offset,
                    },
                    _ => true,
                },
                self.offset == pre.offset ==> progress_le(*self, pre),
            decreases (*buf)@.len(), state_rank(self.state), self.matcher.again_budget(),
        {
            let ghost it_self = *self;
            let ghost it_buf = (*buf)@;
            match self.advance(buf) {
                Err(e) => {
                    proof {
                        assert(pre_buf.skip(self.offset - pre.offset) =~= (*buf)@);
                    }
                    return Err(e);
                },
                Ok(Err(status)) => {
                    proof {
                        if pre.state is Ready && pre_buf.len() == 0 {
                            assert((*buf)@.len() == 0);
                            assert(parse_field(it_buf) is Idle);
                        }
                        assert(pre_buf.skip(self.offset - pre.offset) =~= (*buf)@);
                    }
                    return Ok(Err(status));
                },
                Ok(Ok(Some(m))) => {
                    proof {
                        if it_self.state is Ready && parse_field(it_buf) is Parsed {
                            crate::field_reader::lemma_parse_field_parsed(it_buf);
                        }
                        assert(pre_buf.skip(self.offset - pre.offset) =~= (*buf)@);
                    }
                    return Ok(Ok(m));
                },
                Ok(Ok(None)) => {
                    proof {
                        if it_self.state is Ready && parse_field(it_buf) is Parsed {
                            crate::field_reader::lemma_parse_field_parsed(it_buf);
                        }
                        assert(it_buf.skip(self.offset - it_self.offset) == (*buf)@);
                        assert(pre_buf.skip(self.offset - pre.offset) =~= (*buf)@);
                    }
                },
            }
        }
    }

    /// Gives back the final offset and the matcher.
    pub fn into_parts(self) -> (r: (u64, M))
        ensures
            r.0 == self.offset,
            r.1 == self.matcher,
    {
        (self.offset, self.matcher)
    }

    /// Needs to be called with the buffer **before** the previous call to
    /// `next` has advanced it.
    pub fn slicer<'a>(&self, buf: &'a [u8]) -> (r: Slicer<'a>)
        ensures
            r.buffer@ == buf@,
            r.first_offset == if self.offset >= buf@.len() {
                self.offset - buf@.len()
            } else {
                0
            },
    {
        Slicer::wrap(buf, self.offset)
    }

    pub fn into_sliced(self) -> (r: SlicedMatcherFields<M>)
        ensures
            r.inner == self,
    {
        SlicedMatcherFields { inner: self }
    }
}

impl<M: Matcher> crate::Reader for MatcherFields<M> {
    type Returned = Matched<M::Tag>;

    open spec fn ready_for(&self, buf: &[u8]) -> bool {
        self.wf() && self.offset + buf@.len() <= u64::MAX
    }

    fn next(&mut self, buf: &mut &[u8]) -> (r: Result<
        Result<Matched<M::Tag>, Status>,
        DecodingError,
    >) {
        let ghost pre_off = self.offset;
        let ghost pre_buf = (*buf)@;
        let r = MatcherFields::next(self, buf);
        proof {
            assert((*buf)@ == pre_buf.skip(self.offset - pre_off));
        }
        r
    }
}

/// `MatcherFields` but handing out [`SlicedMatched`] instead of
/// [`Matched`]: the recorded offset range is resolved against the bytes
/// consumed by the very call that produced it.
pub struct SlicedMatcherFields<M: Matcher> {
    pub inner: MatcherFields<M>,
}

impl<M: Matcher> SlicedMatcherFields<M> {
    /// As [`MatcherFields::next`], with each slice match resolved to its
    /// bytes: statuses, errors, tags and offsets are the inner driver's, and
    /// values correspond under [`forget_bytes`]. A slice can only be
    /// resolved while the buffer window that produced it is still at hand,
    /// so a skip suspended mid-field may not be resumed through this driver.
    pub fn next<'a>(&mut self, buf: &mut &'a [u8]) -> (r: Result<
        Result<SlicedMatched<'a, M::Tag>, Status>,
        DecodingError,
    >)
        requires
            old(self).inner.wf(),
            old(self).inner.offset + old(buf)@.len() <= u64::MAX,
            old(self).inner.state matches State::Skipping(_, _, st, _) ==> st == old(
                self,
            ).inner.offset,
        ensures
            final(self).inner.wf(),
            old(self).inner.offset <= final(self).inner.offset <= old(self).inner.offset + old(
                buf,
            )@.len(),
            final(buf)@ == old(buf)@.skip(final(self).inner.offset - old(self).inner.offset),
            r matches Ok(Err(Status::IdleAtEndOfBuffer)) ==> final(self).inner.state is Ready
                && final(buf)@.len() == 0,
            (old(self).inner.state is Ready && old(buf)@.len() == 0) ==> (r matches Ok(
                Err(Status::IdleAtEndOfBuffer),
            ) && *final(self) == *old(self)),
            old(self).inner.state is Ready ==> match parse_field(old(buf)@) {
                FieldParse::Idle => true,
                FieldParse::NeedMore => (r matches Ok(Err(Status::NeedMoreBytes)) && *final(self)
                    == *old(self)),
                FieldParse::Fail(e0) => (r matches Err(e) && e == e0 && final(self).inner.offset
                    == old(self).inner.offset),
                FieldParse::Parsed(pf) => final(self).inner.offset >= old(self).inner.offset
                    + pf.consumed,
            },
            match old(self).inner.state {
                State::Buffering(t, ra, st, amt) => if old(buf)@.len() < amt {
                    (r matches Ok(Err(Status::NeedMoreBytes)) && *final(self) == *old(self))
                } else {
                    &&& final(self).inner.offset == old(self).inner.offset + amt
                    &&& final(self).inner.state is DecidingAfter
                    &&& (r matches Ok(Ok(sm)) && sm.tag == t && sm.offset == ra
                        && forget_bytes(sm.value) == Value::Slice(
                        Range { start: st, end: (st + amt) as u64 },
                    ))
                },
                State::Skipping(t, ra, st, amt) => if amt <= old(buf)@.len() {
                    &&& final(self).inner.offset == old(self).inner.offset + amt
                    &&& final(self).inner.state is DecidingAfter
                    &&& (r matches Ok(Ok(sm)) && sm.tag == t && sm.offset == ra
                        && forget_bytes(sm.value) == Value::Slice(
                        Range { start: st, end: (old(self).inner.offset + amt) as u64 },
                    ))
                } else {
                    &&& final(self).inner.offset == old(self).inner.offset + old(buf)@.len()
                    &&& final(buf)@.len() == 0
                    &&& final(self).inner.state == State::Skipping(
                        t,
                        ra,
                        st,
                        (amt - old(buf)@.len()) as u64,
                    )
                    &&& (r matches Ok(Err(Status::NeedMoreBytes)))
                },
                _ => true,
            },
            old(self).inner.state is DecidingAfter ==> match r {
                Ok(Ok(sm)) => final(self).inner.offset == old(self).inner.offset ==> sm.value
                    is Marker && sm.offset == old(self).inner.offset,
                _ => true,
            },
            r matches Err(_) ==> final(self).inner.state is Ready,
            match r {
                Ok(Ok(sm)) => {
                    &&& sm.offset <= final(self).inner.offset
                    &&& (sm.value matches SlicedValue::Slice(rg, bytes) ==> rg.start <= rg.end
                        && rg.end == final(self).inner.offset && bytes@ == old(buf)@.subrange(
                        rg.start - old(self).inner.offset,
                        rg.end - old(self).inner.offset,
                    ))
                    &&& ((sm.value is Varint || sm.value is Fixed64 || sm.value is Fixed32)
                        ==> sm.offset < final(self).inner.offset)
                    &&& ((!(sm.value is Slice) && sm.offset < final(self).inner.offset)
                        ==> header_step(
                        old(buf)@,
                        old(self).inner.offset,
                        (Matched { tag: sm.tag, offset: sm.offset, value: forget_bytes(sm.value) }),
                        final(self).inner.offset,
                    ) && final(self).inner.state is DecidingAfter)
                },
                _ => true,
            },
    {
        // keep hold of the buffer start for later slicing
        let orig: &'a [u8] = *buf;
        let ghost pre_offset = self.inner.offset;
        match MatcherFields::next(&mut self.inner, buf)? {
            Err(status) => Ok(Err(status)),
            Ok(m) => {
                match m.value {
                    Value::Slice(range) => {
                        let consumed = orig.len() - buf.len();
                        let window = vstd::slice::slice_subrange(orig, 0, consumed);
                        let slicer = self.inner.slicer(window);
                        proof {
                            assert(slicer.first_offset == pre_offset);
                        }
                        let bytes = slicer.as_slice(&range);
                        proof {
                            assert(window@ == orig@.subrange(0, consumed as int));
                            assert(bytes@ =~= orig@.subrange(
                                range.start - pre_offset,
                                range.end - pre_offset,
                            ));
                        }
                        Ok(
                            Ok(
                                SlicedMatched {
                                    tag: m.tag,
                                    offset: m.offset,
                                    value: SlicedValue::Slice(range, bytes),
                                },
                            ),
                        )
                    },
                    Value::Marker => Ok(
                        Ok(
                            SlicedMatched {
                                tag: m.tag,
                                offset: m.offset,
                                value: SlicedValue::Marker,
                            },
                        ),
                    ),
                    Value::Varint(x) => Ok(
                        Ok(
                            SlicedMatched {
                                tag: m.tag,
                                offset: m.offset,
                                value: SlicedValue::Varint(x),
                            },
                        ),
                    ),
                    Value::Fixed64(x) => Ok(
                        Ok(
                            SlicedMatched {
                                tag: m.tag,
                                offset: m.offset,
                                value: SlicedValue::Fixed64(x),
                            },
                        ),
                    ),
                    Value::Fixed32(x) => Ok(
                        Ok(
                            SlicedMatched {
                                tag: m.tag,
                                offset: m.offset,
                                value: SlicedValue::Fixed32(x),
                            },
                        ),
                    ),
                }
            },
        }
    }
}

/// An item tagged by a [`Matcher`] from the stream of fields read by
/// [`MatcherFields`].
#[derive(Debug)]
pub struct Matched<T> {
    pub tag: T,
    /// The stream offset of the field header this item came from, or the
    /// offset of the decision point for a marker.
    pub offset: u64,
    pub value: Value,
}

/// An item tagged by a [`Matcher`] with any slice value resolved to its
/// bytes.
#[derive(Debug)]
pub struct SlicedMatched<'a, T> {
    pub tag: T,
    pub offset: u64,
    pub value: SlicedValue<'a>,
}

/// Represents a matched value. Slice values are offset ranges, not borrowed
/// bytes: the owning buffer may be moved or compacted between calls, so
/// resolving a range is a separate, later step.
#[derive(Debug)]
pub enum Value {
    /// Value does not exist in the stream, but represents a state change
    /// taken by the [`Matcher`].
    Marker,
    /// Number read as a varint field.
    Varint(u64),
    /// Value read as a fixed64 field.
    Fixed64(u64),
    /// Value read as a fixed32 field.
    Fixed32(u32),
    /// A length delimited field read as a stream offset range.
    Slice(Range<u64>),
}

/// Represents a matched value with slices resolved to bytes.
#[derive(Debug)]
pub enum SlicedValue<'a> {
    /// Value does not exist in the stream, but represents a state change
    /// taken by the [`Matcher`].
    Marker,
    /// Number read as a varint field.
    Varint(u64),
    /// Value read as a fixed64 field.
    Fixed64(u64),
    /// Value read as a fixed32 field.
    Fixed32(u32),
    /// A length delimited field read as a slice.
    Slice(Range<u64>, &'a [u8]),
}

impl Value {
    /// The length of a slice value's range, or `Err` for any other value.
    pub fn slice_len(&self) -> (r: Result<usize, ()>)
        requires
            self matches Value::Slice(rg) ==> rg.start <= rg.end && rg.end - rg.start
                <= usize::MAX,
        ensures
            match self {
                Value::Slice(rg) => r matches Ok(n) && n == rg.end - rg.start,
                _ => r is Err,
            },
    {
        match self {
            Value::Slice(range) => Ok((range.end - range.start) as usize),
            _ => Err(()),
        }
    }
}

impl From<SlicedValue<'_>> for Value {
    fn from(sv: SlicedValue<'_>) -> (r: Self) {
        match sv {
            SlicedValue::Marker => Self::Marker,
            SlicedValue::Varint(x) => Self::Varint(x),
            SlicedValue::Fixed64(x) => Self::Fixed64(x),
            SlicedValue::Fixed32(x) => Self::Fixed32(x),
            SlicedValue::Slice(range, _) => Self::Slice(range),
        }
    }
}

impl vstd::std_specs::convert::FromSpecImpl<SlicedValue<'_>> for Value {
    open spec fn obeys_from_spec() -> bool {
        true
    }

    open spec fn from_spec(sv: SlicedValue<'_>) -> Self {
        forget_bytes(sv)
    }
}

/// A sliced value with its resolved bytes forgotten: what `Value::from`
/// gives back, and the view under which a [`SlicedMatched`] corresponds to
/// the [`Matched`] the inner driver produced.
pub open spec fn forget_bytes(sv: SlicedValue<'_>) -> Value {
    match sv {
        SlicedValue::Marker => Value::Marker,
        SlicedValue::Varint(x) => Value::Varint(x),
        SlicedValue::Fixed64(x) => Value::Fixed64(x),
        SlicedValue::Fixed32(x) => Value::Fixed32(x),
        SlicedValue::Slice(range, _) => Value::Slice(range),
    }
}

/// Instruction to process the field as follows, with the given tag.
#[derive(Debug)]
pub enum Cont<T> {
    /// Start processing the field as a nested message, emitting the given
    /// tag as a marker if one is given. The payload bytes re-enter the
    /// driver as nested fields.
    Message(Option<T>),
    /// Process the field as an opaque slice. Bytes will be buffered until
    /// the whole payload is resident in one buffer window.
    ReadSlice(T),
    /// Process the field as a non-length-delimited field with the given
    /// tag, emitting its already-decoded scalar at once.
    ReadValue(T),
}

/// Represents an instruction to skip the current field. Good default: the
/// payload is consumed without ever being buffered.
#[derive(Debug)]
pub struct Skip<T>(pub T);

} // verus!
