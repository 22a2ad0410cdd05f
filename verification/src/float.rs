//! Floating-point settings, kept as bit patterns.
use vstd::prelude::*;

use crate::merge::MergeWith;

verus! {

/// A 64-bit floating-point number as its bit pattern.
#[derive(Clone, Copy, Debug)]
pub struct Float {
    pub bits: u64,
}

impl Float {
    /// The pattern with the sign bit cleared.
    pub open spec fn magnitude(self) -> u64 {
        self.bits & 0x7fff_ffff_ffff_ffff
    }

    /// Whether the pattern is not a number.
    pub open spec fn is_nan(self) -> bool {
        self.magnitude() > 0x7ff0_0000_0000_0000
    }
}

/// Two numbers are equal if their patterns are, or if both are zeros; what is not a number equals
/// nothing.
impl PartialEq for Float {
    fn eq(&self, other: &Self) -> (res: bool) {
        let a: u64 = self.bits & 0x7fff_ffff_ffff_ffff;
        let b: u64 = other.bits & 0x7fff_ffff_ffff_ffff;
        a <= 0x7ff0_0000_0000_0000 && b <= 0x7ff0_0000_0000_0000 && (self.bits == other.bits || (a
            == 0 && b == 0))
    }
}

impl vstd::std_specs::cmp::PartialEqSpecImpl for Float {
    open spec fn obeys_eq_spec() -> bool {
        true
    }

    open spec fn eq_spec(&self, other: &Self) -> bool {
        !self.is_nan() && !other.is_nan() && (self.bits == other.bits || (self.magnitude() == 0
            && other.magnitude() == 0))
    }
}

/// A number that the configuration writes with or without a decimal point, between `MIN` and
/// `MAX`.
#[derive(Clone, Copy, Debug, PartialEq)]
pub struct FloatOrInt<const MIN: u32, const MAX: u32>(pub Float);

impl<const MIN: u32, const MAX: u32> MergeWith<FloatOrInt<MIN, MAX>> for Float {
    open spec fn merges_to(base: Self, part: FloatOrInt<MIN, MAX>, merged: Self) -> bool {
        merged == part.0
    }

    fn merge_with(&mut self, part: &FloatOrInt<MIN, MAX>) {
        *self = part.0;
    }
}

/// Two floating-point numbers are equal if and only if neither has a full exponent with a fraction
/// behind it, and they have the same bits or no bits but the sign.
pub proof fn equality_is_that_of_numbers(a: Float, b: Float)
    ensures
        vstd::std_specs::cmp::PartialEqSpec::eq_spec(&a, &b) <==> {
            &&& !((a.bits >> 52) & 0x7ff == 0x7ff && a.bits & 0xf_ffff_ffff_ffff != 0)
            &&& !((b.bits >> 52) & 0x7ff == 0x7ff && b.bits & 0xf_ffff_ffff_ffff != 0)
            &&& a.bits == b.bits || ((a.bits == 0 || a.bits == 0x8000_0000_0000_0000) && (b.bits
                == 0 || b.bits == 0x8000_0000_0000_0000))
        },
{
    let x = a.bits;
    let y = b.bits;
    assert((x & 0x7fff_ffff_ffff_ffff > 0x7ff0_0000_0000_0000) == ((x >> 52) & 0x7ff == 0x7ff && x
        & 0xf_ffff_ffff_ffff != 0)) by (bit_vector);
    assert((y & 0x7fff_ffff_ffff_ffff > 0x7ff0_0000_0000_0000) == ((y >> 52) & 0x7ff == 0x7ff && y
        & 0xf_ffff_ffff_ffff != 0)) by (bit_vector);
    assert((x & 0x7fff_ffff_ffff_ffff == 0) == (x == 0 || x == 0x8000_0000_0000_0000))
        by (bit_vector);
    assert((y & 0x7fff_ffff_ffff_ffff == 0) == (y == 0 || y == 0x8000_0000_0000_0000))
        by (bit_vector);
}

/// A number takes over the very bits that a part says, whatever they are.
pub proof fn number_is_taken_over<const MIN: u32, const MAX: u32>(
    base: Float,
    part: FloatOrInt<MIN, MAX>,
    merged: Float,
)
    requires
        Float::merges_to(base, part, merged),
    ensures
        merged.bits == part.0.bits,
{
}

} // verus!
