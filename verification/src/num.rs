//! A 24-bit unsigned integer, the type of the length of a medium-sized confinement.
use vstd::prelude::*;

verus! {

/// Unsigned 24-bit integer, held in the low bits of a `u32`.
#[allow(non_camel_case_types)]
#[derive(Copy, Clone, PartialEq, Eq, Structural, Hash, Debug)]
pub struct u24(u32);

/// The largest value of a `u24`.
pub const U24_MAX: u32 = 16777215;

impl u24 {
    /// The value as an integer.
    pub closed spec fn value(self) -> u32 {
        self.0
    }

    /// Every `u24` is at most `U24_MAX`.
    #[verifier::type_invariant]
    closed spec fn fits(self) -> bool {
        self.0 <= U24_MAX
    }

    /// Converts a `u32`, failing when it does not fit in 24 bits.
    pub fn try_from(value: u32) -> (r: Option<u24>)
        ensures
            value <= U24_MAX ==> (r matches Some(x) && x.value() == value),
            value > U24_MAX ==> (r is None),
    {
        if value <= U24_MAX {
            Some(u24(value))
        } else {
            None
        }
    }

    /// Returns the value as a `u32`.
    pub fn to_u32(self) -> (r: u32)
        ensures
            r == self.value(),
            r <= U24_MAX,
    {
        proof {
            use_type_invariant(&self);
        }
        self.0
    }
}

} // verus!
