//! The per-byte property of a text.

use std::ops::Index;
use std::ops::Range;
use vstd::prelude::*;
use vstd::laws_eq::obeys_concrete_eq;
use vstd::string::StringSliceAdditionalSpecFns;
use vstd::utf8::encode_utf8;
use crate::error::BoundsError;
use crate::error::ValuesError;
use crate::model::{fill_span, filled, read_range, read_slot, write_answer, write_span};
use crate::uniform::{
    char_at, lemma_filled_is_uniform, lemma_offset_step, lemma_offsets_ascend,
    lemma_set_keeps_uniform, offset_of, uniform_over,
};
use crate::width::{byte_width, lemma_byte_width_by_code_point};

verus! {

/// A value of type `T` for each byte of `text`, found by the byte's offset.
///
/// The bytes of one character are meant to hold one value: `set` writes a
/// character's whole span at once.
#[derive(Clone, Debug, Eq, PartialEq)]
pub struct StringProperty<'text, T> {
    text: &'text str,
    values: Vec<T>,
}

impl<'text, T> View for StringProperty<'text, T> {
    type V = Seq<T>;

    /// The slots, in the order of the byte offsets.
    closed spec fn view(&self) -> Seq<T> {
        self.values@
    }
}

impl<'text, T> StringProperty<'text, T> {
    /// The characters of the text that the slots belong to.
    pub closed spec fn text(&self) -> Seq<char> {
        self.text@
    }

    /// True when there is one slot for each byte of the text, and the slots
    /// of each character all hold one value.
    pub open spec fn is_uniform(&self) -> bool {
        uniform_over(self.text(), self@)
    }
}

impl<'text, T: Copy> StringProperty<'text, T> {
    /// One slot for each byte of `text`, each holding `default_value`.
    pub fn new(text: &'text str, default_value: T) -> (property: Self)
        ensures
            property.text() == text@,
            property@ == filled(text.spec_bytes().len(), default_value),
            property.is_uniform(),
    {
        let len: usize = text.as_bytes().len();
        let mut values: Vec<T> = Vec::with_capacity(len);
        while values.len() < len
            invariant
                values@.len() <= len,
                values@ == filled(values@.len(), default_value),
            decreases len - values@.len(),
        {
            values.push(default_value);
        }
        proof {
            lemma_filled_is_uniform(text@, values@, default_value);
        }
        StringProperty { text, values }
    }

    /// Takes `values` as the slots of `text`, as they are and at no cost:
    /// nothing holds them to the length of the text nor to its characters.
    /// `from_uniform_values` does.
    pub fn from_values(text: &'text str, values: Vec<T>) -> (property: Self)
        ensures
            property.text() == text@,
            property@ == values@,
    {
        StringProperty { text, values }
    }

    /// Takes `values` as the slots of `text` after it has seen that there is
    /// one for each byte of `text` and that the bytes of each character have
    /// one value. Every value is read once.
    ///
    /// Values are compared with `==`; what is said of uniformity holds for a
    /// type whose `==` tells whether two values are the same.
    pub fn from_uniform_values(text: &'text str, values: Vec<T>) -> (made: Result<
        Self,
        ValuesError,
    >) where T: PartialEq
        ensures
            match made {
                Ok(property) => {
                    &&& property.text() == text@
                    &&& property@ == values@
                    &&& values@.len() == text.spec_bytes().len()
                    &&& obeys_concrete_eq::<T>() ==> property.is_uniform()
                },
                Err(ValuesError::WrongLength) => values@.len() != text.spec_bytes().len(),
                Err(ValuesError::SplitCharacter) => {
                    &&& values@.len() == text.spec_bytes().len()
                    &&& obeys_concrete_eq::<T>() ==> !uniform_over(text@, values@)
                },
            },
    {
        let len: usize = text.as_bytes().len();
        if values.len() != len {
            return Err(ValuesError::WrongLength);
        }
        let mut offset: usize = 0;
        proof {
            assert(text@.take(0) =~= Seq::<char>::empty());
        }
        for ch in chars: text.chars()
            invariant
                chars.seq() == text@,
                values@.len() == len == encode_utf8(text@).len(),
                offset == offset_of(text@, chars.index()),
                obeys_concrete_eq::<T>() ==> forall|k: int, j: int|
                    #![trigger offset_of(text@, k), values@[j]]
                    0 <= k < chars.index() && offset_of(text@, k) <= j < offset_of(text@, k)
                        + byte_width(text@[k]) ==> values@[j] == values@[offset_of(text@, k)],
        {
            let ghost k: int = chars.index();
            let width: usize = ch.len_utf8();
            proof {
                lemma_byte_width_by_code_point(ch);
                lemma_offset_step(text@, k);
                lemma_offsets_ascend(text@, k, text@.len() as int);
            }
            let end: usize = offset + width;
            let mut at: usize = offset + 1;
            while at < end
                invariant
                    0 <= k < text@.len(),
                    offset == offset_of(text@, k),
                    end == offset + byte_width(text@[k]),
                    offset < at <= end <= len == values@.len() == encode_utf8(text@).len(),
                    obeys_concrete_eq::<T>() ==> forall|j: int|
                        offset <= j < at ==> values@[j] == values@[offset as int],
                decreases end - at,
            {
                if values[at] != values[offset] {
                    proof {
                        reveal(obeys_concrete_eq);
                        assert(obeys_concrete_eq::<T>() ==> values@[at as int]
                            != values@[offset_of(text@, k)]);
                    }
                    return Err(ValuesError::SplitCharacter);
                }
                proof {
                    reveal(obeys_concrete_eq);
                }
                at = at + 1;
            }
            offset = end;
        }
        Ok(StringProperty { text, values })
    }

    /// The number of slots.
    pub fn len(&self) -> (len: usize)
        ensures
            len == self@.len(),
    {
        self.values.len()
    }

    /// Writes `value` into every slot of the span that `ch` takes from `idx`
    /// on. Where the span does not lie within the slots, nothing is written.
    ///
    /// Uniform slots stay uniform where `ch` is the character of the text
    /// that starts at `idx`; such a write is always accepted.
    pub fn set(&mut self, idx: usize, ch: char, value: T) -> (done: Result<(), BoundsError>)
        ensures
            final(self).text() == old(self).text(),
            done == write_answer(old(self)@.len(), idx as int, byte_width(ch) as int),
            final(self)@ == write_span(old(self)@, idx as int, byte_width(ch) as int, value),
            old(self).is_uniform() && char_at(old(self).text(), idx as int, ch) ==> done is Ok
                && final(self).is_uniform(),
    {
        let width: usize = ch.len_utf8();
        let len: usize = self.values.len();
        proof {
            lemma_byte_width_by_code_point(ch);
            if self.is_uniform() && char_at(self.text(), idx as int, ch) {
                lemma_set_keeps_uniform(self.text(), self@, idx as int, ch, value);
            }
        }
        if idx > len || width > len - idx {
            return Err(BoundsError::PastEnd);
        }
        let end: usize = idx + width;
        let mut at: usize = idx;
        while at < end
            invariant
                idx <= at <= end <= len,
                self.text() == old(self).text(),
                self@ == fill_span(old(self)@, idx as int, at - idx, value),
                old(self)@.len() == len,
            decreases end - at,
        {
            self.values[at] = value;
            at = at + 1;
        }
        Ok(())
    }

    /// The value in the slot at `idx`.
    pub fn get(&self, idx: usize) -> (value: Result<T, BoundsError>)
        ensures
            value == read_slot(self@, idx as int),
    {
        if idx < self.values.len() {
            Ok(self.values[idx])
        } else {
            Err(BoundsError::PastEnd)
        }
    }

    /// The slots from `range.start` up to, and without, `range.end`.
    pub fn get_range(&self, range: Range<usize>) -> (slots: Result<&[T], BoundsError>)
        ensures
            match slots {
                Ok(part) => read_range(self@, range.start as int, range.end as int) == Ok::<
                    Seq<T>,
                    BoundsError,
                >(part@),
                Err(refusal) => read_range(self@, range.start as int, range.end as int) == Err::<
                    Seq<T>,
                    BoundsError,
                >(refusal),
            },
    {
        if range.start > range.end {
            Err(BoundsError::Inverted)
        } else if range.end > self.values.len() {
            Err(BoundsError::PastEnd)
        } else {
            Ok(&self.values[range])
        }
    }

    /// All the slots.
    pub fn get_all(&self) -> (slots: &[T])
        ensures
            slots@ == self@,
    {
        self.values.as_slice()
    }

    /// The slot at `idx`, to be written alone: the other bytes of its
    /// character keep what they hold.
    pub fn index_mut(&mut self, idx: usize) -> (slot: &mut T)
        requires
            idx < old(self)@.len(),
        ensures
            *slot == old(self)@[idx as int],
            final(self)@ == old(self)@.update(idx as int, *final(slot)),
            final(self).text() == old(self).text(),
    {
        &mut self.values[idx]
    }
}

impl<'text, T: Copy> vstd::std_specs::core::IndexSpecImpl<usize> for StringProperty<'text, T> {
    /// Indexing is for slots that exist.
    open spec fn index_req(&self, idx: &usize) -> bool {
        *idx < self@.len()
    }
}

impl<'text, T: Copy> Index<usize> for StringProperty<'text, T> {
    type Output = T;

    /// The slot at `idx`, read as it is.
    fn index(&self, idx: usize) -> (slot: &T)
        ensures
            *slot == self@[idx as int],
    {
        &self.values[idx]
    }
}

} // verus!
