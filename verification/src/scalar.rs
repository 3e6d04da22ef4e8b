//! The numbers a field is made of.
//!
//! The field never looks inside a cell value: it combines values through the
//! operations below and nothing else. Each operation comes with a
//! specification function of the same arguments that names its result, so that
//! the contracts of the field can say which value ends up where. An
//! implementation owes exactly that: every operation returns a value that is
//! determined by its arguments alone. Nothing else is assumed of the
//! arithmetic, so what is proved of a field holds for every such type, exact
//! or rounding.

use vstd::prelude::*;

verus! {

/// Arithmetic on cell values.
pub trait Numeric: Copy {
    /// The value that [`Numeric::one`] returns.
    spec fn unit() -> Self;

    /// The value that [`Numeric::from_int`] returns for `v`.
    spec fn of_int(v: i32) -> Self;

    /// The value that [`Numeric::plus`] returns.
    spec fn sum(self, rhs: Self) -> Self;

    /// The value that [`Numeric::minus`] returns.
    spec fn difference(self, rhs: Self) -> Self;

    /// The value that [`Numeric::times`] returns.
    spec fn product(self, rhs: Self) -> Self;

    /// The multiplicative identity.
    fn one() -> (r: Self)
        ensures
            r == Self::unit(),
    ;

    /// The number nearest to the integer `v`.
    fn from_int(v: i32) -> (r: Self)
        ensures
            r == Self::of_int(v),
    ;

    /// `self + rhs`.
    fn plus(self, rhs: Self) -> (r: Self)
        ensures
            r == self.sum(rhs),
    ;

    /// `self - rhs`.
    fn minus(self, rhs: Self) -> (r: Self)
        ensures
            r == self.difference(rhs),
    ;

    /// `self * rhs`.
    fn times(self, rhs: Self) -> (r: Self)
        ensures
            r == self.product(rhs),
    ;
}

/// A cell value of a displacement field: arithmetic, the conversions between
/// numbers and grid coordinates, and the functions that sampling and
/// refinement need.
pub trait Scalar: Numeric {
    /// The type in which samples are blended.
    type Wide: Numeric;

    /// The value that [`Scalar::from_index`] returns for `i`.
    spec fn of_index(i: usize) -> Option<Self>;

    /// The value that [`Scalar::floor`] returns.
    spec fn floored(self) -> Self;

    /// The value that [`Scalar::round`] returns.
    spec fn rounded(self) -> Self;

    /// The value that [`Scalar::exp`] returns.
    spec fn exponential(self) -> Self;

    /// The value that [`Scalar::to_int`] returns.
    spec fn as_int(self) -> Option<i64>;

    /// The value that [`Scalar::widen`] returns.
    spec fn widened(self) -> Option<Self::Wide>;

    /// The number that stands for the grid index `i`, or `None` if the type
    /// has no such number.
    fn from_index(i: usize) -> (r: Option<Self>)
        ensures
            r == Self::of_index(i),
    ;

    /// The largest whole number that is not above `self`.
    fn floor(self) -> (r: Self)
        ensures
            r == self.floored(),
    ;

    /// The whole number nearest to `self`. Which of two equally near ones it
    /// is, is the implementation's choice (the binary floating-point types
    /// take the one farther from zero).
    fn round(self) -> (r: Self)
        ensures
            r == self.rounded(),
    ;

    /// `e` raised to the power `self`.
    fn exp(self) -> (r: Self)
        ensures
            r == self.exponential(),
    ;

    /// The integer that `self` stands for, or `None` if it stands for none
    /// (it is no number, or too far from zero).
    fn to_int(self) -> (r: Option<i64>)
        ensures
            r == self.as_int(),
    ;

    /// The same number in the blending type, or `None` if that type cannot
    /// hold it.
    fn widen(self) -> (r: Option<Self::Wide>)
        ensures
            r == self.widened(),
    ;
}

} // verus!
