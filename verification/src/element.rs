//! Capability traits for matrix element types.
//!
//! Every operation of the matrix type asks only for the narrowest
//! capability it needs: all operations need exact cloning and a zero
//! value ([`Element`]); addition, subtraction and multiplication each
//! add one more trait. Each executable operation is pinned to a spec
//! counterpart, so matrix contracts can speak about element arithmetic
//! abstractly.

use vstd::prelude::*;

verus! {

/// The base capability every matrix element needs: an exact clone and
/// a zero (default) value, used to pre-fill storage.
pub trait Element: Sized {
    /// The zero value of the type.
    spec fn zero_spec() -> Self;

    /// Produce the zero value.
    fn zero_val() -> (r: Self)
        ensures
            r == Self::zero_spec(),
    ;

    /// Duplicate a value exactly.
    fn clone_val(&self) -> (r: Self)
        ensures
            r == *self,
    ;
}

/// Elements that can be added.
pub trait AddElement: Element {
    /// When the sum of two values is representable.
    spec fn add_pre(self, rhs: Self) -> bool;

    /// The sum of two values.
    spec fn add_spec(self, rhs: Self) -> Self;

    /// Compute the sum.
    fn add_val(&self, rhs: &Self) -> (r: Self)
        requires
            self.add_pre(*rhs),
        ensures
            r == self.add_spec(*rhs),
    ;
}

/// Elements that can be subtracted.
pub trait SubElement: Element {
    /// When the difference of two values is representable.
    spec fn sub_pre(self, rhs: Self) -> bool;

    /// The difference of two values.
    spec fn sub_spec(self, rhs: Self) -> Self;

    /// Compute the difference.
    fn sub_val(&self, rhs: &Self) -> (r: Self)
        requires
            self.sub_pre(*rhs),
        ensures
            r == self.sub_spec(*rhs),
    ;
}

/// Elements that can be multiplied, with a multiplicative identity.
pub trait MulElement: Element {
    /// The multiplicative identity of the type.
    spec fn one_spec() -> Self;

    /// When the product of two values is representable.
    spec fn mul_pre(self, rhs: Self) -> bool;

    /// The product of two values.
    spec fn mul_spec(self, rhs: Self) -> Self;

    /// Compute the product.
    fn mul_val(&self, rhs: &Self) -> (r: Self)
        requires
            self.mul_pre(*rhs),
        ensures
            r == self.mul_spec(*rhs),
    ;

    /// `one_spec` really is a right identity of multiplication.
    proof fn lemma_mul_one(a: Self)
        ensures
            a.mul_pre(Self::one_spec()),
            a.mul_spec(Self::one_spec()) == a,
    ;
}

/// Elements whose addition and subtraction cancel exactly, as integer
/// arithmetic does.
pub trait CancelElement: AddElement + SubElement {
    /// Subtracting `b` undoes adding `b`.
    proof fn lemma_add_sub_cancel(a: Self, b: Self)
        requires
            a.add_pre(b),
        ensures
            a.add_spec(b).sub_pre(b),
            a.add_spec(b).sub_spec(b) == a,
    ;
}

impl Element for i64 {
    open spec fn zero_spec() -> i64 {
        0
    }

    fn zero_val() -> i64 {
        0
    }

    fn clone_val(&self) -> i64 {
        *self
    }
}

impl AddElement for i64 {
    open spec fn add_pre(self, rhs: i64) -> bool {
        i64::MIN <= self + rhs <= i64::MAX
    }

    open spec fn add_spec(self, rhs: i64) -> i64 {
        (self + rhs) as i64
    }

    fn add_val(&self, rhs: &i64) -> i64 {
        *self + *rhs
    }
}

impl SubElement for i64 {
    open spec fn sub_pre(self, rhs: i64) -> bool {
        i64::MIN <= self - rhs <= i64::MAX
    }

    open spec fn sub_spec(self, rhs: i64) -> i64 {
        (self - rhs) as i64
    }

    fn sub_val(&self, rhs: &i64) -> i64 {
        *self - *rhs
    }
}

impl MulElement for i64 {
    open spec fn one_spec() -> i64 {
        1
    }

    open spec fn mul_pre(self, rhs: i64) -> bool {
        i64::MIN <= self * rhs <= i64::MAX
    }

    open spec fn mul_spec(self, rhs: i64) -> i64 {
        (self * rhs) as i64
    }

    fn mul_val(&self, rhs: &i64) -> i64 {
        *self * *rhs
    }

    proof fn lemma_mul_one(a: i64) {
    }
}

impl CancelElement for i64 {
    proof fn lemma_add_sub_cancel(a: i64, b: i64) {
    }
}

} // verus!
