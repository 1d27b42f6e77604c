//! One value for all the bytes of a character.
//!
//! A character of a text starts at the byte offset that the characters before
//! it fill, and takes as many slots as its encoding has bytes. The slots are
//! uniform when those of each character hold one value.

use vstd::prelude::*;
use vstd::utf8::encode_utf8;
use crate::error::BoundsError;
use crate::model::{read_slot, span_fits, write_answer, write_span};
use crate::width::byte_width;

verus! {

/// The byte offset at which the character of index `k` in `text` starts: the
/// number of bytes that the characters before it take.
pub open spec fn offset_of(text: Seq<char>, k: int) -> int {
    encode_utf8(text.take(k)).len() as int
}

/// True when `ch` is a character of `text` that starts at the byte `offset`.
pub open spec fn char_at(text: Seq<char>, offset: int, ch: char) -> bool {
    exists|k: int| 0 <= k < text.len() && text[k] == ch && #[trigger] offset_of(text, k) == offset
}

/// True when there is one slot for each byte of `text`, and the slots of each
/// of its characters all hold what the first of them holds.
pub open spec fn uniform_over<T>(text: Seq<char>, slots: Seq<T>) -> bool {
    &&& slots.len() == encode_utf8(text).len()
    &&& forall|k: int, j: int|
        #![trigger offset_of(text, k), slots[j]]
        0 <= k < text.len() && offset_of(text, k) <= j < offset_of(text, k) + byte_width(text[k])
            ==> slots[j] == slots[offset_of(text, k)]
}

/// A text with one more character at its end takes the bytes of the text and
/// those of the character.
proof fn lemma_encode_push(text: Seq<char>, ch: char)
    ensures
        encode_utf8(text.push(ch)).len() == encode_utf8(text).len() + byte_width(ch),
    decreases text.len(),
{
    reveal_with_fuel(encode_utf8, 2);
    if text.len() == 0 {
        assert(text.push(ch).drop_first() =~= text);
    } else {
        assert(text.push(ch).drop_first() =~= text.drop_first().push(ch));
        lemma_encode_push(text.drop_first(), ch);
    }
}

/// Each character starts where the one before it ends, the first at byte 0,
/// and the last ends where the bytes of the text end.
pub proof fn lemma_offset_step(text: Seq<char>, k: int)
    requires
        0 <= k < text.len(),
    ensures
        offset_of(text, 0) == 0,
        offset_of(text, k + 1) == offset_of(text, k) + byte_width(text[k]),
        offset_of(text, text.len() as int) == encode_utf8(text).len(),
{
    assert(text.take(0) =~= Seq::<char>::empty());
    assert(text.take(text.len() as int) =~= text);
    assert(text.take(k + 1) =~= text.take(k).push(text[k]));
    lemma_encode_push(text.take(k), text[k]);
}

/// A character that comes later in the text starts at or after the end of
/// each character before it.
pub proof fn lemma_offsets_ascend(text: Seq<char>, k: int, later: int)
    requires
        0 <= k < later <= text.len(),
    ensures
        offset_of(text, k) + byte_width(text[k]) <= offset_of(text, later),
    decreases later - k,
{
    lemma_offset_step(text, k);
    if k + 1 < later {
        lemma_offsets_ascend(text, k + 1, later);
    }
}

/// The span of a character of the text lies within the bytes of the text.
pub proof fn lemma_char_span_fits(text: Seq<char>, offset: int, ch: char)
    requires
        char_at(text, offset, ch),
    ensures
        span_fits(encode_utf8(text).len(), offset, byte_width(ch) as int),
{
    let k: int = choose|k: int|
        0 <= k < text.len() && text[k] == ch && #[trigger] offset_of(text, k) == offset;
    lemma_offset_step(text, k);
    lemma_offsets_ascend(text, k, text.len() as int);
}

/// Slots that all hold one value are uniform over a text of as many bytes.
pub proof fn lemma_filled_is_uniform<T>(text: Seq<char>, slots: Seq<T>, value: T)
    requires
        slots.len() == encode_utf8(text).len(),
        forall|j: int| 0 <= j < slots.len() ==> slots[j] == value,
    ensures
        uniform_over(text, slots),
{
    assert forall|k: int, j: int|
        #![trigger offset_of(text, k), slots[j]]
        0 <= k < text.len() && offset_of(text, k) <= j < offset_of(text, k) + byte_width(
            text[k],
        ) implies slots[j] == slots[offset_of(text, k)] by {
        lemma_offset_step(text, k);
        lemma_offsets_ascend(text, k, text.len() as int);
    }
}

/// Writing a value over the span of a character of the text is accepted and
/// keeps uniform slots uniform.
pub proof fn lemma_set_keeps_uniform<T>(
    text: Seq<char>,
    slots: Seq<T>,
    offset: int,
    ch: char,
    value: T,
)
    requires
        uniform_over(text, slots),
        char_at(text, offset, ch),
    ensures
        write_answer(slots.len(), offset, byte_width(ch) as int) is Ok,
        uniform_over(text, write_span(slots, offset, byte_width(ch) as int, value)),
{
    let set: int = choose|k: int|
        0 <= k < text.len() && text[k] == ch && #[trigger] offset_of(text, k) == offset;
    let width: int = byte_width(ch) as int;
    lemma_char_span_fits(text, offset, ch);
    let written = write_span(slots, offset, width, value);
    assert forall|k: int, j: int|
        #![trigger offset_of(text, k), written[j]]
        0 <= k < text.len() && offset_of(text, k) <= j < offset_of(text, k) + byte_width(
            text[k],
        ) implies written[j] == written[offset_of(text, k)] by {
        lemma_offset_step(text, k);
        lemma_offsets_ascend(text, k, text.len() as int);
        if k < set {
            lemma_offsets_ascend(text, k, set);
        } else if set < k {
            lemma_offsets_ascend(text, set, k);
        }
        assert(slots[j] == slots[offset_of(text, k)]);
    }
}

/// In uniform slots, every byte of a character reads as its first byte does.
pub proof fn lemma_uniform_span_reads_alike<T>(
    text: Seq<char>,
    slots: Seq<T>,
    offset: int,
    ch: char,
    j: int,
)
    requires
        uniform_over(text, slots),
        char_at(text, offset, ch),
        offset <= j < offset + byte_width(ch),
    ensures
        read_slot(slots, offset) == Ok::<T, BoundsError>(slots[offset]),
        read_slot(slots, j) == read_slot(slots, offset),
{
    let k: int = choose|k: int|
        0 <= k < text.len() && text[k] == ch && #[trigger] offset_of(text, k) == offset;
    lemma_char_span_fits(text, offset, ch);
    assert(slots[j] == slots[offset_of(text, k)]);
}

} // verus!
