//! The arithmetic that a matrix cell needs.

use vstd::prelude::*;

verus! {

/// A number that can be stored in a cell of the system and accumulated there.
///
/// The assembly engine never looks inside a value. It only needs the additive
/// identity, the unit, sums, additive inverses and reciprocals. Each operation
/// comes with a specification function of the same meaning, and the executable
/// method promises to compute exactly that function: an operation is a function
/// of its operands and of nothing else.
///
/// No algebraic law is built into the trait, so that rounding arithmetic is a
/// legitimate instance. Theorems that need a law ask for it explicitly, through
/// [`plus_is_commutative`], [`plus_is_associative`] and
/// [`negation_distributes`].
pub trait Scalar: Copy {
    /// The additive identity.
    spec fn spec_zero() -> Self;

    /// The multiplicative unit.
    spec fn spec_one() -> Self;

    /// The sum of `self` and `rhs`.
    spec fn spec_plus(self, rhs: Self) -> Self;

    /// The additive inverse of `self`.
    spec fn spec_negated(self) -> Self;

    /// The unit divided by `self`.
    spec fn spec_reciprocal(self) -> Self;

    /// Returns the additive identity.
    fn zero() -> (r: Self)
        ensures
            r == Self::spec_zero(),
    ;

    /// Returns the multiplicative unit.
    fn one() -> (r: Self)
        ensures
            r == Self::spec_one(),
    ;

    /// Returns `self + rhs`.
    fn plus(&self, rhs: &Self) -> (r: Self)
        ensures
            r == self.spec_plus(*rhs),
    ;

    /// Returns `-self`.
    fn negated(&self) -> (r: Self)
        ensures
            r == self.spec_negated(),
    ;

    /// Returns `1 / self`.
    fn reciprocal(&self) -> (r: Self)
        ensures
            r == self.spec_reciprocal(),
    ;
}

/// Addition on `S` does not depend on the order of its operands.
pub open spec fn plus_is_commutative<S: Scalar>() -> bool {
    forall|a: S, b: S| #[trigger] a.spec_plus(b) == b.spec_plus(a)
}

/// Addition on `S` does not depend on how a sum of three is bracketed.
pub open spec fn plus_is_associative<S: Scalar>() -> bool {
    forall|a: S, b: S, c: S| #[trigger] a.spec_plus(b).spec_plus(c) == a.spec_plus(b.spec_plus(c))
}

/// The inverse of a sum on `S` is the sum of the inverses.
pub open spec fn negation_distributes<S: Scalar>() -> bool {
    forall|a: S, b: S| #[trigger]
        a.spec_plus(b).spec_negated() == a.spec_negated().spec_plus(b.spec_negated())
}

/// The 64-bit integer that stands for `x` when integers are counted modulo
/// two to the power of 64. `x` is the sum of two 64-bit integers or the
/// inverse of one.
pub open spec fn wrapped(x: int) -> i64 {
    if x > i64::MAX {
        (x - 0x1_0000_0000_0000_0000) as i64
    } else if x < i64::MIN {
        (x + 0x1_0000_0000_0000_0000) as i64
    } else {
        x as i64
    }
}

/// The 64-bit integers with wrapping arithmetic. Sums and inverses are exact
/// modulo two to the power of 64. The reciprocal is the quotient of one by the
/// value, rounded towards zero: the value itself for 1 and -1, and 0
/// otherwise. The reciprocal of 0 is taken to be 0.
impl Scalar for i64 {
    open spec fn spec_zero() -> i64 {
        0
    }

    open spec fn spec_one() -> i64 {
        1
    }

    open spec fn spec_plus(self, rhs: i64) -> i64 {
        wrapped(self + rhs)
    }

    open spec fn spec_negated(self) -> i64 {
        wrapped(-self)
    }

    open spec fn spec_reciprocal(self) -> i64 {
        if self == 1 || self == -1 {
            self
        } else {
            0
        }
    }

    fn zero() -> (r: i64) {
        0
    }

    fn one() -> (r: i64) {
        1
    }

    fn plus(&self, rhs: &i64) -> (r: i64) {
        let sum: i128 = *self as i128 + *rhs as i128;
        if sum > i64::MAX as i128 {
            (sum - 0x1_0000_0000_0000_0000) as i64
        } else if sum < i64::MIN as i128 {
            (sum + 0x1_0000_0000_0000_0000) as i64
        } else {
            sum as i64
        }
    }

    fn negated(&self) -> (r: i64) {
        if *self == i64::MIN {
            i64::MIN
        } else {
            -*self
        }
    }

    fn reciprocal(&self) -> (r: i64) {
        if *self == 1 || *self == -1 {
            *self
        } else {
            0
        }
    }
}

/// On the 64-bit integers addition is commutative and associative, and the
/// inverse of a sum is the sum of the inverses.
pub proof fn lemma_integer_laws()
    ensures
        plus_is_commutative::<i64>(),
        plus_is_associative::<i64>(),
        negation_distributes::<i64>(),
{
}

} // verus!
