//! Why an access to the slots, or a sequence of values, was refused.

use vstd::prelude::*;

verus! {

/// An offset, a span or a range that does not lie within the slots.
#[derive(Clone, Copy, Debug, PartialEq, Eq, Structural)]
pub enum BoundsError {
    /// The offset, or the end of the span or range, lies past the last slot.
    PastEnd,
    /// The range ends before it starts.
    Inverted,
}

/// Values that cannot be the uniform slots of a text.
#[derive(Clone, Copy, Debug, PartialEq, Eq, Structural)]
pub enum ValuesError {
    /// There are more or fewer values than the text has bytes.
    WrongLength,
    /// The bytes of some character do not all have the same value.
    SplitCharacter,
}

} // verus!
