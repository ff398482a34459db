//! Combining tagged matches into caller-defined aggregates.
//!
//! A [`Gatherer`] receives every tagged item a
//! [`MatcherFields`](crate::matcher_fields::MatcherFields) produces, stores
//! the parts it needs, and hands back an assembled value once its closing
//! condition is reached. Because slice matches are stream offset ranges, a
//! [`Slicer`] resolves them against the currently retained buffer window,
//! and [`Gatherer::min_offset`] tells the buffer owner which bytes must
//! remain retained for ranges still held.

use vstd::prelude::*;

use core::ops::Range;

use crate::field_reader::{parse_field, FieldParse};
use crate::matcher_fields::{state_rank, Matched, Matcher, MatcherFields};
use crate::{DecodingError, Status};

verus! {

/// Gathers multiple tagged values into one returned value. This is needed
/// because the fields of a message can come in any order, and an earlier
/// value can be overridden by a later field.
pub trait Gatherer {
    /// The marker type matched by this gatherer.
    type Tag;

    /// The combined value returned from this gatherer.
    type Returned;

    /// Records one match. Slice values must be resolved through `slicer`
    /// immediately: the ranges it covers may no longer be retained by the
    /// time of a later call. Returns the assembled value once the aggregate
    /// is complete, and nothing otherwise.
    fn update<'a>(&mut self, matched: Matched<Self::Tag>, slicer: Slicer<'a>) -> (r: Result<
        Option<Self::Returned>,
        DecodingError,
    >);

    /// The smallest stream offset among the ranges still held, or nothing
    /// if none are held. The buffer owner must never discard a byte at or
    /// after this offset.
    fn min_offset(&self) -> (r: Option<u64>);
}

/// Maps the bytes in the currently retained buffer window to the stream
/// offset ranges recorded in slice values.
pub struct Slicer<'a> {
    /// The currently retained buffer window.
    pub buffer: &'a [u8],
    /// The stream offset that `buffer[0]` corresponds to.
    pub first_offset: u64,
}

impl<'a> Slicer<'a> {
    /// Wraps a window whose **last** byte sits just before stream offset
    /// `last_offset`.
    pub fn wrap(buffer: &'a [u8], last_offset: u64) -> (r: Self)
        ensures
            r.buffer@ == buffer@,
            r.first_offset == if last_offset >= buffer@.len() {
                last_offset - buffer@.len()
            } else {
                0
            },
    {
        let len = buffer.len() as u64;
        let first_offset = if last_offset >= len {
            last_offset - len
        } else {
            0
        };
        Self { buffer, first_offset }
    }

    /// Resolves a recorded stream offset range to the bytes of the window.
    /// The whole range must lie inside the retained window: a caller that
    /// discarded bytes it was told to retain has no way to get them back.
    pub fn as_slice(&self, range: &Range<u64>) -> (r: &'a [u8])
        requires
            self.first_offset <= range.start <= range.end,
            range.end - self.first_offset <= self.buffer@.len(),
        ensures
            r@ == self.buffer@.subrange(
                range.start - self.first_offset,
                range.end - self.first_offset,
            ),
    {
        let window_len = self.buffer.len();
        proof {
            assert(range.end - self.first_offset <= window_len);
        }
        let start = (range.start - self.first_offset) as usize;
        let end = (range.end - self.first_offset) as usize;
        vstd::slice::slice_subrange(self.buffer, start, end)
    }
}

/// Combines a [`Matcher`] and a [`Gatherer`] so that full values can be
/// recognized across several parts of the stream. Keeps track of how much
/// of the caller's buffer must stay retained while an aggregate is still
/// open, and releases the buffer again once none is.
pub struct GatheredFields<M: Matcher, G> {
    /// The inner field-matching driver.
    pub reader: MatcherFields<M>,
    /// The caller-supplied aggregation policy.
    pub gatherer: G,
    /// The retention watermark of the open aggregate, if one is open: no
    /// byte at or after this stream offset may be discarded by the caller.
    pub cached_min_offset: Option<u64>,
}

impl<M: Matcher, G: Gatherer<Tag = M::Tag>> GatheredFields<M, G> {
    /// The caller keeps every byte from the watermark on retained, so the
    /// bytes between the watermark and the inner reader's position are a
    /// prefix of the buffer it hands in.
    pub open spec fn window_ok(&self, buf: Seq<u8>) -> bool {
        match self.cached_min_offset {
            Some(min) => min <= self.reader.offset && self.reader.offset - min <= buf.len(),
            None => true,
        }
    }

    pub fn new(matcher: M, gatherer: G) -> (r: Self)
        ensures
            r.reader.offset == 0,
            r.reader.state is Ready,
            r.reader.matcher == matcher,
            r.gatherer == gatherer,
            r.cached_min_offset is None,
            r.reader.wf(),
    {
        Self { reader: MatcherFields::new(matcher), gatherer, cached_min_offset: None }
    }

    /// Drives the inner matcher to its next match, resolves it against the
    /// traversed part of the buffer, and feeds it to the gatherer. The
    /// buffer is advanced past consumed bytes only while no aggregate is
    /// open; while one is, every byte from the watermark on stays in place.
    /// Between fields, what the effective window holds decides the outcome:
    /// an empty window idles, a truncated header suspends, a malformed one
    /// fails with its exact error, and a complete one is consumed.
    pub fn next(&mut self, buf: &mut &[u8]) -> (r: Result<Result<G::Returned, Status>, DecodingError>)
        requires
            old(self).reader.wf(),
            old(self).window_ok(old(buf)@),
            old(self).reader.offset + old(buf)@.len() <= u64::MAX + match old(
                self,
            ).cached_min_offset {
                Some(min) => old(self).reader.offset - min,
                None => 0,
            },
        ensures
            final(self).reader.wf(),
            old(self).reader.offset <= final(self).reader.offset,
            r is Err ==> final(buf)@ == old(buf)@,
            (r is Ok && final(self).cached_min_offset is Some) ==> final(buf)@ == old(buf)@,
            r matches Ok(Err(Status::IdleAtEndOfBuffer)) ==> (final(self).reader.state
                is Ready),
            old(self).reader.state is Ready ==> ({
                let w = old(buf)@.skip(
                    old(self).reader.offset - match old(self).cached_min_offset {
                        Some(min) => min as int,
                        None => old(self).reader.offset as int,
                    },
                );
                match parse_field(w) {
                    FieldParse::Idle => (r matches Ok(Err(Status::IdleAtEndOfBuffer))),
                    FieldParse::NeedMore => (r matches Ok(Err(Status::NeedMoreBytes))),
                    FieldParse::Fail(e0) => (r matches Err(e) && e == e0),
                    FieldParse::Parsed(pf) => final(self).reader.offset >= old(self).reader.offset
                        + pf.consumed,
                }
            }),
            (r is Ok && final(self).cached_min_offset is None) ==> {
                let start0 = match old(self).cached_min_offset {
                    Some(min) => min as int,
                    None => old(self).reader.offset as int,
                };
                &&& 0 <= final(self).reader.offset - start0 <= old(buf)@.len()
                &&& final(buf)@ == old(buf)@.skip(final(self).reader.offset - start0)
            },
    {
        let ghost buf0 = (*buf)@;
        let ghost start0: int = match self.cached_min_offset {
            Some(min) => min as int,
            None => self.reader.offset as int,
        };

        let mut tmp: &[u8] = match self.cached_min_offset {
            Some(min) => {
                let diff = (self.reader.offset() - min) as usize;
                vstd::slice::slice_subrange(*buf, diff, buf.len())
            },
            None => *buf,
        };

        proof {
            assert(tmp@ =~= buf0.skip(self.reader.offset - start0));
        }

        #[verifier::loop_isolation(false)]
        loop
            invariant
                self.reader.wf(),
                old(self).reader.offset <= self.reader.offset,
                start0 <= self.reader.offset,
                self.reader.offset - start0 <= buf0.len(),
                self.reader.offset + tmp@.len() <= u64::MAX,
                (*buf)@ == buf0,
                tmp@ == buf0.skip(self.reader.offset - start0),
                old(self).reader.state is Ready ==> match parse_field(
                    buf0.skip(old(self).reader.offset - start0),
                ) {
                    FieldParse::Idle => *self == *old(self) && tmp@ == buf0.skip(
                        old(self).reader.offset - start0,
                    ),
                    FieldParse::NeedMore => *self == *old(self) && tmp@ == buf0.skip(
                        old(self).reader.offset - start0,
                    ),
                    FieldParse::Fail(_) => *self == *old(self) && tmp@ == buf0.skip(
                        old(self).reader.offset - start0,
                    ),
                    FieldParse::Parsed(pf) => *self == *old(self) || self.reader.offset >= old(
                        self,
                    ).reader.offset + pf.consumed,
                },
            decreases tmp@.len(), state_rank(self.reader.state), self.reader.matcher.again_budget(),
        {
            let ghost tmp_pre = tmp@;
            let ghost off_pre = self.reader.offset;
            let step = MatcherFields::next(&mut self.reader, &mut tmp);
            proof {
                assert(tmp@ == tmp_pre.skip(self.reader.offset - off_pre));
                assert(buf0.skip(self.reader.offset - start0) =~= tmp@);
            }
            let ret: Option<Result<Result<G::Returned, Status>, DecodingError>> = match step {
                Err(e) => {
                    return Err(e);
                },
                Ok(Ok(m)) => {
                    let end = buf.len() - tmp.len();
                    let sliced_from = vstd::slice::slice_subrange(*buf, 0, end);
                    let slicer = Slicer::wrap(sliced_from, self.reader.offset());
                    let fed = match self.gatherer.update(m, slicer) {
                        Err(e) => {
                            return Err(e);
                        },
                        Ok(fed) => fed,
                    };
                    // any produced value invalidates the cached watermark
                    self.cached_min_offset = None;
                    match fed {
                        Some(value) => Some(Ok(Ok(value))),
                        None => None,
                    }
                },
                Ok(Err(status)) => Some(Ok(Err(status))),
            };

            if let Some(ret_value) = ret {
                if self.cached_min_offset.is_none() {
                    self.cached_min_offset = self.gatherer.min_offset();
                }

                if self.cached_min_offset.is_none() {
                    *buf = tmp;
                }

                return ret_value;
            }
        }
    }
}

impl<M: Matcher, G: Gatherer<Tag = M::Tag>> crate::Reader for GatheredFields<M, G> {
    type Returned = G::Returned;

    open spec fn ready_for(&self, buf: &[u8]) -> bool {
        self.reader.wf() && self.window_ok(buf@) && self.reader.offset + buf@.len() <= u64::MAX
            + match self.cached_min_offset {
            Some(min) => self.reader.offset - min,
            None => 0,
        }
    }

    fn next(&mut self, buf: &mut &[u8]) -> (r: Result<Result<G::Returned, Status>, DecodingError>) {
        let ghost pre_buf = (*buf)@;
        let r = GatheredFields::next(self, buf);
        proof {
            if (*buf)@ == pre_buf {
                assert((*buf)@ =~= pre_buf.skip(0));
            }
        }
        r
    }
}

} // verus!
