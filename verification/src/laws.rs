//! What holds of the accessors taken together, for every sequence of slots.
//!
//! Each statement is made over the functions that the contracts of the
//! accessors are made over, so it holds of every property whatever its text
//! and its values.

use vstd::prelude::*;
use crate::error::BoundsError;
use crate::model::{filled, read_range, read_slot, span_fits, write_answer, write_span};
use crate::width::byte_width;

verus! {

/// A property made with a default value has as many slots as was asked for,
/// and each of them holds the default value.
pub proof fn lemma_filled_with_default<T>(len: nat, default_value: T)
    ensures
        filled(len, default_value).len() == len,
        forall|j: int| 0 <= j < len ==> #[trigger] filled(len, default_value)[j] == default_value,
        forall|j: int|
            0 <= j < len ==> #[trigger] read_slot(filled(len, default_value), j) == Ok::<
                T,
                BoundsError,
            >(default_value),
{
}

/// After a character was set at an offset where its span lies within the
/// slots, every slot of the span reads back the value that was set, and every
/// slot outside the span reads back what it held before.
pub proof fn lemma_set_then_get<T>(slots: Seq<T>, idx: usize, ch: char, value: T)
    requires
        span_fits(slots.len(), idx as int, byte_width(ch) as int),
    ensures
        write_answer(slots.len(), idx as int, byte_width(ch) as int) is Ok,
        ({
            let written = write_span(slots, idx as int, byte_width(ch) as int, value);
            &&& written.len() == slots.len()
            &&& forall|j: int|
                #![trigger written[j]]
                idx <= j < idx + byte_width(ch) ==> written[j] == value && read_slot(written, j)
                    == Ok::<T, BoundsError>(value)
            &&& forall|j: int|
                #![trigger written[j]]
                0 <= j < slots.len() && !(idx <= j < idx + byte_width(ch)) ==> written[j]
                    == slots[j] && read_slot(written, j) == read_slot(slots, j)
        }),
{
}

/// Reading a range that lies within the slots gives the slots of that range,
/// one for one and in their order.
pub proof fn lemma_get_range_is_slice_of_all<T>(slots: Seq<T>, start: usize, end: usize)
    requires
        start <= end <= slots.len(),
    ensures
        read_range(slots, start as int, end as int) matches Ok(part) && {
            &&& part == slots.subrange(start as int, end as int)
            &&& part.len() == end - start
            &&& forall|k: int| 0 <= k < end - start ==> #[trigger] part[k] == slots[start + k]
        },
{
}

/// Reading a slot at or past the end, and reading a range that reaches past
/// the end, are refused.
pub proof fn lemma_reads_past_the_end_are_refused<T>(
    slots: Seq<T>,
    idx: usize,
    start: usize,
    end: usize,
)
    ensures
        idx >= slots.len() ==> read_slot(slots, idx as int) is Err,
        idx < slots.len() ==> read_slot(slots, idx as int) is Ok,
        (start > slots.len() || end > slots.len()) ==> read_range(slots, start as int, end as int)
            is Err,
        start <= end <= slots.len() ==> read_range(slots, start as int, end as int) is Ok,
{
}

/// Setting a character twice in a row with one value leaves the slots, and
/// gives the answer, that setting it once does.
pub proof fn lemma_set_twice_is_set_once<T>(slots: Seq<T>, idx: usize, ch: char, value: T)
    ensures
        ({
            let once = write_span(slots, idx as int, byte_width(ch) as int, value);
            &&& write_span(once, idx as int, byte_width(ch) as int, value) == once
            &&& write_answer(once.len(), idx as int, byte_width(ch) as int) == write_answer(
                slots.len(),
                idx as int,
                byte_width(ch) as int,
            )
        }),
{
    let once = write_span(slots, idx as int, byte_width(ch) as int, value);
    assert(write_span(once, idx as int, byte_width(ch) as int, value) =~= once);
}

} // verus!
