//! The capability set a scalar type must supply so that matrices over it
//! can be built and combined: total addition, subtraction and
//! multiplication, an additive identity, and duplication.

use vstd::prelude::*;

verus! {

/// What a scalar type must provide to serve as a matrix element.
///
/// Each executable operation is pinned to a specification-level function
/// (`spec_add`, `spec_sub`, `spec_mul`, `spec_zero`), so matrix contracts can
/// speak about cell values exactly. Every operation is total: an implementor
/// chooses how to stay closed (for example, wrapping arithmetic on fixed-width
/// integers). Two laws are demanded of every implementor: `spec_zero` is a
/// two-sided additive identity, and subtracting a value from itself yields
/// `spec_zero`.
pub trait Scalar: Sized {
    /// The meaning of addition on this scalar, as seen by contracts.
    spec fn spec_add(self, rhs: Self) -> Self;

    /// The meaning of subtraction on this scalar, as seen by contracts.
    spec fn spec_sub(self, rhs: Self) -> Self;

    /// The meaning of multiplication on this scalar, as seen by contracts.
    spec fn spec_mul(self, rhs: Self) -> Self;

    /// The additive identity, used to zero-fill matrices.
    spec fn spec_zero() -> Self;

    /// `spec_zero` really is a two-sided additive identity.
    proof fn law_zero_identity(x: Self)
        ensures
            x.spec_add(Self::spec_zero()) == x,
            Self::spec_zero().spec_add(x) == x,
    ;

    /// Subtraction is self-inverse: `x - x` is the additive identity.
    proof fn law_sub_self(x: Self)
        ensures
            x.spec_sub(x) == Self::spec_zero(),
    ;

    /// Total addition, agreeing with `spec_add`.
    fn scalar_add(self, rhs: Self) -> (r: Self)
        ensures
            r == self.spec_add(rhs),
    ;

    /// Total subtraction, agreeing with `spec_sub`.
    fn scalar_sub(self, rhs: Self) -> (r: Self)
        ensures
            r == self.spec_sub(rhs),
    ;

    /// Total multiplication, agreeing with `spec_mul`.
    fn scalar_mul(self, rhs: Self) -> (r: Self)
        ensures
            r == self.spec_mul(rhs),
    ;

    /// Produce the additive identity.
    fn scalar_zero() -> (r: Self)
        ensures
            r == Self::spec_zero(),
    ;

    /// Duplicate a scalar; the copy equals the original.
    fn duplicate(&self) -> (r: Self)
        ensures
            r == *self,
    ;
}

/// `i32` scalars use wrapping arithmetic, so every operation is total.
impl Scalar for i32 {
    open spec fn spec_add(self, rhs: Self) -> Self {
        vstd::wrapping::i32_specs::wrapping_add(self, rhs)
    }

    open spec fn spec_sub(self, rhs: Self) -> Self {
        vstd::wrapping::i32_specs::wrapping_sub(self, rhs)
    }

    open spec fn spec_mul(self, rhs: Self) -> Self {
        vstd::wrapping::i32_specs::wrapping_mul(self, rhs)
    }

    open spec fn spec_zero() -> Self {
        0i32
    }

    proof fn law_zero_identity(x: Self) {
    }

    proof fn law_sub_self(x: Self) {
    }

    fn scalar_add(self, rhs: Self) -> (r: Self) {
        self.wrapping_add(rhs)
    }

    fn scalar_sub(self, rhs: Self) -> (r: Self) {
        self.wrapping_sub(rhs)
    }

    fn scalar_mul(self, rhs: Self) -> (r: Self) {
        self.wrapping_mul(rhs)
    }

    fn scalar_zero() -> (r: Self) {
        0
    }

    fn duplicate(&self) -> (r: Self) {
        *self
    }
}

} // verus!
