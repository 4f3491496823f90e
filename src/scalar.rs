use vstd::prelude::*;

verus! {

/// The real-number type that the engine computes with.
///
/// Each operation is stated as a function of its arguments: the exec
/// method returns what its spec counterpart gives on the same values. The
/// engine states its results over these spec functions. A 64-bit
/// floating-point type is the intended implementation.
pub trait Scalar: Copy + Sized {
    spec fn spec_zero() -> Self;

    spec fn spec_one() -> Self;

    spec fn spec_add(self, o: Self) -> Self;

    spec fn spec_sub(self, o: Self) -> Self;

    spec fn spec_mul(self, o: Self) -> Self;

    spec fn spec_div(self, o: Self) -> Self;

    spec fn spec_neg(self) -> Self;

    spec fn spec_sqrt(self) -> Self;

    spec fn spec_sin_degrees(self) -> Self;

    spec fn spec_cos_degrees(self) -> Self;

    spec fn spec_is_positive(self) -> bool;

    fn zero() -> (r: Self)
        ensures
            r == Self::spec_zero(),
    ;

    fn one() -> (r: Self)
        ensures
            r == Self::spec_one(),
    ;

    fn add(&self, o: &Self) -> (r: Self)
        ensures
            r == self.spec_add(*o),
    ;

    fn sub(&self, o: &Self) -> (r: Self)
        ensures
            r == self.spec_sub(*o),
    ;

    fn mul(&self, o: &Self) -> (r: Self)
        ensures
            r == self.spec_mul(*o),
    ;

    fn div(&self, o: &Self) -> (r: Self)
        ensures
            r == self.spec_div(*o),
    ;

    fn neg(&self) -> (r: Self)
        ensures
            r == self.spec_neg(),
    ;

    fn sqrt(&self) -> (r: Self)
        ensures
            r == self.spec_sqrt(),
    ;

    /// Sine and cosine of an angle given in degrees.
    fn sin_cos_degrees(&self) -> (r: (Self, Self))
        ensures
            r.0 == self.spec_sin_degrees(),
            r.1 == self.spec_cos_degrees(),
    ;

    /// Whether the value is strictly greater than zero.
    fn is_positive(&self) -> (r: bool)
        ensures
            r == self.spec_is_positive(),
    ;
}

} // verus!
