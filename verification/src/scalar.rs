use vstd::prelude::*;

verus! {

/// The capabilities a matrix element type must offer: an additive
/// identity, a multiplicative identity, the four arithmetic
/// operations the matrix operations use, and an exponential map.
///
/// Each executable method is pinned to a companion `spec` function of
/// the implementing type, so every matrix contract can state exactly
/// which combination of element operations produced each entry.
/// Implementations supplied by callers are trusted to make each
/// method agree with its companion; everything proved about a matrix
/// of such elements holds relative to that agreement.
pub trait Scalar: Sized + Copy {
    /// The additive identity, as the contracts see it.
    spec fn zero_spec() -> Self;

    /// The multiplicative identity, as the contracts see it.
    spec fn one_spec() -> Self;

    /// The sum of `self` and `rhs`, as the contracts see it.
    spec fn add_spec(self, rhs: Self) -> Self;

    /// The product of `self` and `rhs`, as the contracts see it.
    spec fn mul_spec(self, rhs: Self) -> Self;

    /// The quotient of `self` by `rhs`, as the contracts see it.
    spec fn div_spec(self, rhs: Self) -> Self;

    /// The exponential of `self`, as the contracts see it.
    spec fn exp_spec(self) -> Self;

    /// Produces the additive identity.
    fn zero() -> (r: Self)
        ensures
            r == Self::zero_spec(),
    ;

    /// Produces the multiplicative identity.
    fn one() -> (r: Self)
        ensures
            r == Self::one_spec(),
    ;

    /// Adds `rhs` to `self`.
    fn add_val(self, rhs: Self) -> (r: Self)
        ensures
            r == self.add_spec(rhs),
    ;

    /// Multiplies `self` by `rhs`.
    fn mul_val(self, rhs: Self) -> (r: Self)
        ensures
            r == self.mul_spec(rhs),
    ;

    /// Divides `self` by `rhs`. Division by a zero element follows
    /// the element type's own convention; the matrix operations
    /// never exclude it.
    fn div_val(self, rhs: Self) -> (r: Self)
        ensures
            r == self.div_spec(rhs),
    ;

    /// The exponential of `self`.
    fn exp_val(self) -> (r: Self)
        ensures
            r == self.exp_spec(),
    ;
}

} // verus!
