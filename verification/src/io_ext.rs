//! The decisions of a blocking byte-source adapter.
//!
//! An adapter that feeds a [`Reader`](crate::Reader) from a blocking source
//! owns a growable buffer. What to do when the reader suspends, and how to
//! make room before the next read, are plain computations and live here;
//! the reads themselves stay with the adapter.

use vstd::prelude::*;

use crate::Status;

verus! {

/// What a suspended reader means for the byte source.
#[derive(Debug, Clone, Copy, PartialEq, Eq, Structural)]
pub enum SuspensionAction {
    /// The stream ended between items: a clean end of the session.
    EndOfStream,
    /// The stream ended inside an item: the input was truncated.
    Truncated,
    /// The source has more to give: refill the buffer and call again.
    FillBuffer,
}

/// Maps a suspension status to an action, given whether the source already
/// reported its end: idling at the end of the input is a clean end, while
/// needing more bytes there means the input was cut off mid-field.
pub fn classify_suspension(status: &Status, eof_after_buffer: bool) -> (r: SuspensionAction)
    ensures
        r == match status {
            Status::IdleAtEndOfBuffer => if eof_after_buffer {
                SuspensionAction::EndOfStream
            } else {
                SuspensionAction::FillBuffer
            },
            Status::NeedMoreBytes => if eof_after_buffer {
                SuspensionAction::Truncated
            } else {
                SuspensionAction::FillBuffer
            },
        },
{
    match status {
        Status::IdleAtEndOfBuffer => if eof_after_buffer {
            SuspensionAction::EndOfStream
        } else {
            SuspensionAction::FillBuffer
        },
        Status::NeedMoreBytes => if eof_after_buffer {
            SuspensionAction::Truncated
        } else {
            SuspensionAction::FillBuffer
        },
    }
}

/// The refill plan for a buffer of `len` bytes in a block of `capacity`,
/// whose first `at_offset` bytes have been consumed and released: how many
/// bytes to drain from the front, and how many zeroes to append for the next
/// read. Draining and growing (by `grow_by`) happen only once the capacity
/// is exhausted.
pub open spec fn spec_refill_plan(len: int, capacity: int, at_offset: int, grow_by: int) -> (
    int,
    int,
) {
    if capacity - len > 0 {
        (0, capacity - len)
    } else {
        let kept = len - at_offset;
        if capacity - kept > 0 {
            (at_offset, capacity - kept)
        } else {
            (at_offset, grow_by)
        }
    }
}

/// Computes [`spec_refill_plan`]: first use the free capacity, then drain
/// the released prefix, and only grow once there is no other way.
pub fn refill_plan(len: usize, capacity: usize, at_offset: usize, grow_by: usize) -> (r: (
    usize,
    usize,
))
    requires
        at_offset <= len <= capacity,
    ensures
        (r.0 as int, r.1 as int) == spec_refill_plan(
            len as int,
            capacity as int,
            at_offset as int,
            grow_by as int,
        ),
        r.0 <= len,
        len - r.0 + r.1 <= capacity + grow_by,
{
    let free = capacity - len;
    if free > 0 {
        (0, free)
    } else {
        let kept = len - at_offset;
        let free_after_drain = capacity - kept;
        if free_after_drain > 0 {
            (at_offset, free_after_drain)
        } else {
            (at_offset, grow_by)
        }
    }
}

} // verus!
