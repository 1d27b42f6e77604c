//! The slots as a mathematical sequence, and what each access makes of it.
//!
//! The contracts of the executable accessors are stated over these functions.

use vstd::prelude::*;
use crate::error::BoundsError;

verus! {

/// `len` slots that all hold `value`.
pub open spec fn filled<T>(len: nat, value: T) -> Seq<T> {
    Seq::new(len, |j: int| value)
}

/// True when the `width` slots from `offset` on all exist among `len` slots.
pub open spec fn span_fits(len: nat, offset: int, width: int) -> bool {
    0 <= offset && 0 <= width && offset + width <= len
}

/// The slots with `value` in each of the `width` slots from `offset` on, and
/// every other slot as it was.
pub open spec fn fill_span<T>(slots: Seq<T>, offset: int, width: int, value: T) -> Seq<T> {
    Seq::new(
        slots.len(),
        |j: int|
            if offset <= j < offset + width {
                value
            } else {
                slots[j]
            },
    )
}

/// What a write over a span answers: it is accepted where the whole span
/// exists, and refused where any part of it does not.
pub open spec fn write_answer(len: nat, offset: int, width: int) -> Result<(), BoundsError> {
    if span_fits(len, offset, width) {
        Ok(())
    } else {
        Err(BoundsError::PastEnd)
    }
}

/// The slots after a write of `value` over a span: the span filled where the
/// write is accepted, and the slots as they were where it is refused.
pub open spec fn write_span<T>(slots: Seq<T>, offset: int, width: int, value: T) -> Seq<T> {
    if span_fits(slots.len(), offset, width) {
        fill_span(slots, offset, width, value)
    } else {
        slots
    }
}

/// Reading one slot: its value where the slot exists.
pub open spec fn read_slot<T>(slots: Seq<T>, offset: int) -> Result<T, BoundsError> {
    if 0 <= offset < slots.len() {
        Ok(slots[offset])
    } else {
        Err(BoundsError::PastEnd)
    }
}

/// Reading the slots from `start` up to, and without, `end`.
pub open spec fn read_range<T>(slots: Seq<T>, start: int, end: int) -> Result<
    Seq<T>,
    BoundsError,
> {
    if start > end {
        Err(BoundsError::Inverted)
    } else if 0 <= start && end <= slots.len() {
        Ok(slots.subrange(start, end))
    } else {
        Err(BoundsError::PastEnd)
    }
}

} // verus!
