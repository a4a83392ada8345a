//! The element type of a tensor.

use vstd::prelude::*;

verus! {

/// A type whose values can be the elements of a tensor.
///
/// The methods carry no contract here, so an implementation owes nothing and
/// the tensor operations are proved for all of them. An implementation may
/// say what its methods return; the predicates below then carry that through
/// to the elements of a result.
pub trait Scalar: Copy {
    /// The value with which a sum of products starts.
    fn zero() -> Self;

    /// The scalar that stands for a position in a sequence.
    fn from_index(i: usize) -> Self;

    /// `self + rhs`.
    fn plus(self, rhs: Self) -> Self;

    /// `self - rhs`.
    fn minus(self, rhs: Self) -> Self;

    /// `self * rhs`.
    fn times(self, rhs: Self) -> Self;

    /// `self / rhs`.
    fn over(self, rhs: Self) -> Self;

    /// The scalar as it is printed.
    fn text(self) -> String;
}

/// `r` is a value that `E::zero()` returns.
pub open spec fn is_zero<E: Scalar>(r: E) -> bool {
    call_ensures(E::zero, (), r)
}

/// `r` is a value that `E::from_index(i)` returns.
pub open spec fn is_index<E: Scalar>(i: usize, r: E) -> bool {
    call_ensures(E::from_index, (i,), r)
}

/// `r` is a value that `x.plus(y)` returns.
pub open spec fn is_sum<E: Scalar>(x: E, y: E, r: E) -> bool {
    call_ensures(E::plus, (x, y), r)
}

/// `r` is a value that `x.minus(y)` returns.
pub open spec fn is_difference<E: Scalar>(x: E, y: E, r: E) -> bool {
    call_ensures(E::minus, (x, y), r)
}

/// `r` is a value that `x.times(y)` returns.
pub open spec fn is_product<E: Scalar>(x: E, y: E, r: E) -> bool {
    call_ensures(E::times, (x, y), r)
}

/// `r` is a value that `x.over(y)` returns.
pub open spec fn is_quotient<E: Scalar>(x: E, y: E, r: E) -> bool {
    call_ensures(E::over, (x, y), r)
}

/// `r` is a string that `x.text()` returns.
pub open spec fn is_text<E: Scalar>(x: E, r: String) -> bool {
    call_ensures(E::text, (x,), r)
}

/// Integers modulo 2^64, in two's complement.
///
/// Sums, differences and products wrap. A quotient is truncated towards
/// zero; it is zero where the divisor is zero.
impl Scalar for i64 {
    fn zero() -> (r: i64)
        ensures
            r == 0,
    {
        0
    }

    fn from_index(i: usize) -> (r: i64)
        ensures
            r == i as i64,
    {
        #[verifier::truncate]
        (i as i64)
    }

    fn plus(self, rhs: i64) -> (r: i64)
        ensures
            r == self.wrapping_add(rhs),
    {
        self.wrapping_add(rhs)
    }

    fn minus(self, rhs: i64) -> (r: i64)
        ensures
            r == self.wrapping_sub(rhs),
    {
        self.wrapping_sub(rhs)
    }

    fn times(self, rhs: i64) -> (r: i64)
        ensures
            r == self.wrapping_mul(rhs),
    {
        self.wrapping_mul(rhs)
    }

    fn over(self, rhs: i64) -> (r: i64)
        ensures
            r == wrapping_quotient(self, rhs),
    {
        match self.checked_div(rhs) {
            Some(q) => q,
            None => if rhs == 0 {
                0
            } else {
                i64::MIN
            },
        }
    }

    fn text(self) -> (r: String)
        ensures
            vstd::string::to_string_from_display_ensures::<i64>(&self, r),
    {
        self.to_string()
    }
}

/// The quotient of two `i64` truncated towards zero: zero where the divisor
/// is zero, and `i64::MIN` for `i64::MIN / -1`, whose quotient does not fit.
pub open spec fn wrapping_quotient(x: i64, d: i64) -> i64 {
    match x.checked_div(d) {
        Some(q) => q,
        None => if d == 0 {
            0
        } else {
            i64::MIN
        },
    }
}

} // verus!
