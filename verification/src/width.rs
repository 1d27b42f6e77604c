//! How many bytes a character takes in UTF-8.

use vstd::prelude::*;
use vstd::utf8::encode_scalar;

verus! {

/// The number of bytes in the UTF-8 encoding of `ch`.
pub open spec fn byte_width(ch: char) -> nat {
    encode_scalar(ch as u32).len()
}

/// `char::len_utf8` returns the number of bytes that the character needs when
/// it is encoded in UTF-8. This is taken from the documentation of the
/// standard library and is not proved here.
pub assume_specification[ char::len_utf8 ](ch: char) -> (n: usize)
    ensures
        n == byte_width(ch),
;

/// The width of a character is decided by the range its code point lies in,
/// and is never less than one byte nor more than four.
pub proof fn lemma_byte_width_by_code_point(ch: char)
    ensures
        1 <= byte_width(ch) <= 4,
        byte_width(ch) == 1 <==> (ch as u32) < 0x80,
        byte_width(ch) == 2 <==> 0x80 <= (ch as u32) < 0x800,
        byte_width(ch) == 3 <==> 0x800 <= (ch as u32) < 0x1_0000,
        byte_width(ch) == 4 <==> 0x1_0000 <= (ch as u32),
{
}

} // verus!
