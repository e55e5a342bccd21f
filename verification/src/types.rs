//! Value types with a fuzzing behaviour of their own.
use vstd::prelude::*;

verus! {

/// A value of an enum that may also hold a number that is no valid variant.
pub enum UnsafeEnum<T, I> {
    Valid(T),
    Invalid(I),
}

/// Conversion of a value to its primitive representation.
pub trait ToPrimitive {
    type Output;

    /// The primitive representation of the value.
    spec fn primitive(&self) -> Self::Output;

    fn to_primitive(&self) -> (r: Self::Output)
        ensures
            r == self.primitive(),
    ;
}

impl ToPrimitive for bool {
    type Output = u8;

    open spec fn primitive(&self) -> u8 {
        if *self {
            1
        } else {
            0
        }
    }

    fn to_primitive(&self) -> (r: u8) {
        if *self {
            1
        } else {
            0
        }
    }
}

/// A character of the ASCII range.
#[derive(Clone, Copy, Debug, PartialEq, Eq, Structural)]
pub struct AsciiChar(pub u8);

/// A string of ASCII characters.
#[derive(Debug)]
pub struct AsciiString {
    pub inner: Vec<AsciiChar>,
}

/// A Unicode scalar value.
#[derive(Clone, Copy, Debug, PartialEq, Eq, Structural)]
pub struct Utf8Char(pub char);

/// A string of Unicode scalar values.
#[derive(Debug)]
pub struct Utf8String {
    pub inner: Vec<Utf8Char>,
}

} // verus!
