//! The code unit of a text column. A column stores either single-byte
//! characters (`u8`) or double-byte wide characters (`u16`); lengths reported
//! by the data source are in bytes, while the buffer is indexed in code
//! units, so every conversion between the two goes through this trait.

use vstd::prelude::*;

verus! {

/// A single code unit of a text column buffer.
pub trait TextElement: Copy {
    /// Width of one code unit in bytes, as a mathematical value.
    spec fn spec_size() -> nat;

    /// The zero code unit, as a mathematical value. It fills fresh buffers
    /// and serves as the terminator written behind each value.
    spec fn spec_zero() -> Self;

    /// Width of one code unit in bytes.
    fn size_in_bytes() -> (r: usize)
        ensures
            r == Self::spec_size(),
            1 <= r <= 2,
    ;

    /// The zero code unit.
    fn zero() -> (r: Self)
        ensures
            r == Self::spec_zero(),
    ;

    /// The width in bytes is positive.
    proof fn size_positive()
        ensures
            1 <= Self::spec_size() <= 2,
    ;
}

impl TextElement for u8 {
    open spec fn spec_size() -> nat {
        1
    }

    open spec fn spec_zero() -> u8 {
        0u8
    }

    fn size_in_bytes() -> usize {
        1
    }

    fn zero() -> u8 {
        0u8
    }

    proof fn size_positive() {
    }
}

impl TextElement for u16 {
    open spec fn spec_size() -> nat {
        2
    }

    open spec fn spec_zero() -> u16 {
        0u16
    }

    fn size_in_bytes() -> usize {
        2
    }

    fn zero() -> u16 {
        0u16
    }

    proof fn size_positive() {
    }
}

} // verus!
