//! The element type contract: which numeric types may populate a matrix.
//!
//! A matrix element must carry additive and multiplicative identities,
//! total (never-panicking) addition and multiplication, exact equality,
//! and a way to draw a fresh sample from a random source.  The arithmetic
//! is described at the specification level by `zero_spec`, `one_spec`,
//! `add_spec` and `mul_spec`, and every implementation must prove the
//! algebraic laws the matrix proofs rely on: addition commutes and has
//! `zero` as neutral element; multiplication commutes, has `one` as
//! neutral element and `zero` as absorbing element.
//!
//! The two provided implementations, for `i64` and `i32`, use the
//! machine's wrapping arithmetic, which is total in the same way
//! floating-point arithmetic is: no input makes it panic.

use vstd::prelude::*;

verus! {

/// Capability gate for matrix element types.
///
/// `Matrix<T>` can only be instantiated with a `T` that implements this
/// trait; the trait supplies the identities and ring operations the
/// container's arithmetic is built from, together with proofs of the
/// laws that make matrix addition commutative and the identity matrix
/// neutral under multiplication.
pub trait Float: Sized + Copy {
    /// The additive identity, as a specification-level value.
    spec fn zero_spec() -> Self;

    /// The multiplicative identity, as a specification-level value.
    spec fn one_spec() -> Self;

    /// What `add` returns, as a specification-level function.
    spec fn add_spec(self, other: Self) -> Self;

    /// What `mul` returns, as a specification-level function.
    spec fn mul_spec(self, other: Self) -> Self;

    /// Addition commutes.
    proof fn lemma_add_comm(x: Self, y: Self)
        ensures
            x.add_spec(y) == y.add_spec(x),
    ;

    /// `zero` is neutral for addition, on either side.
    proof fn lemma_add_zero(x: Self)
        ensures
            x.add_spec(Self::zero_spec()) == x,
            Self::zero_spec().add_spec(x) == x,
    ;

    /// Multiplication commutes.
    proof fn lemma_mul_comm(x: Self, y: Self)
        ensures
            x.mul_spec(y) == y.mul_spec(x),
    ;

    /// `one` is neutral for multiplication, on either side.
    proof fn lemma_mul_one(x: Self)
        ensures
            x.mul_spec(Self::one_spec()) == x,
            Self::one_spec().mul_spec(x) == x,
    ;

    /// `zero` absorbs multiplication, on either side.
    proof fn lemma_mul_zero(x: Self)
        ensures
            x.mul_spec(Self::zero_spec()) == Self::zero_spec(),
            Self::zero_spec().mul_spec(x) == Self::zero_spec(),
    ;

    /// The additive identity.
    fn zero() -> (r: Self)
        ensures
            r == Self::zero_spec(),
    ;

    /// The multiplicative identity.
    fn one() -> (r: Self)
        ensures
            r == Self::one_spec(),
    ;

    /// Total addition; never panics.
    fn add(self, other: Self) -> (r: Self)
        ensures
            r == self.add_spec(other),
    ;

    /// Total multiplication; never panics.
    fn mul(self, other: Self) -> (r: Self)
        ensures
            r == self.mul_spec(other),
    ;

    /// Exact equality of two elements; no tolerance.
    fn eq_elem(self, other: Self) -> (r: bool)
        ensures
            r == (self == other),
    ;

    /// An element drawn from a random source.  Nothing is promised of
    /// the value: two calls may differ.
    fn sample() -> Self;
}

/// Dot-product capability: a reduction of two containers with the same
/// total element count to a single element.
pub trait Dot<T: Float> {
    /// When the reduction is defined: both containers hold the same
    /// number of elements.
    spec fn dot_req(&self, other: &Self) -> bool;

    /// The value the reduction yields, as a specification-level
    /// function.
    spec fn dot_spec(&self, other: &Self) -> T;

    /// The sum over all linear offsets of the products of the paired
    /// elements.
    fn dot(&self, other: &Self) -> (r: T)
        requires
            self.dot_req(other),
        ensures
            r == self.dot_spec(other),
    ;
}

/// Relies on rand::random: draws a uniformly distributed `i64` from
/// the thread-local generator.  The result depends on the generator's
/// state, so nothing is promised of it.
#[verifier::external_body]
fn random_i64() -> i64 {
    rand::random::<i64>()
}

/// Relies on rand::random: draws a uniformly distributed `i32` from
/// the thread-local generator.  The result depends on the generator's
/// state, so nothing is promised of it.
#[verifier::external_body]
fn random_i32() -> i32 {
    rand::random::<i32>()
}

impl Float for i64 {
    open spec fn zero_spec() -> i64 {
        0i64
    }

    open spec fn one_spec() -> i64 {
        1i64
    }

    open spec fn add_spec(self, other: i64) -> i64 {
        self.wrapping_add(other)
    }

    open spec fn mul_spec(self, other: i64) -> i64 {
        self.wrapping_mul(other)
    }

    proof fn lemma_add_comm(x: i64, y: i64) {
    }

    proof fn lemma_add_zero(x: i64) {
    }

    proof fn lemma_mul_comm(x: i64, y: i64) {
        assert(x as int * y as int == y as int * x as int) by (nonlinear_arith);
    }

    proof fn lemma_mul_one(x: i64) {
        assert(x.wrapping_mul(1i64) == x) by {
            lemma_signed_crop_identity_i64(x);
        };
        assert(1i64.wrapping_mul(x) == x) by {
            lemma_signed_crop_identity_i64(x);
        };
    }

    proof fn lemma_mul_zero(x: i64) {
    }

    fn zero() -> i64 {
        0i64
    }

    fn one() -> i64 {
        1i64
    }

    fn add(self, other: i64) -> i64 {
        self.wrapping_add(other)
    }

    fn mul(self, other: i64) -> i64 {
        self.wrapping_mul(other)
    }

    fn eq_elem(self, other: i64) -> bool {
        self == other
    }

    fn sample() -> i64 {
        random_i64()
    }
}

/// A value already in `i64`'s range is its own wrapped image.
proof fn lemma_signed_crop_identity_i64(x: i64)
    ensures
        vstd::wrapping::i64_specs::signed_crop(x as int) == x,
{
    let range = 0x1_0000_0000_0000_0000int;
    if x >= 0 {
        assert((x as int) % range == x as int) by (nonlinear_arith)
            requires
                0 <= (x as int),
                (x as int) < range;
    } else {
        assert((x as int) % range == x as int + range) by (nonlinear_arith)
            requires
                -range <= (x as int),
                (x as int) < 0;
    }
}

impl Float for i32 {
    open spec fn zero_spec() -> i32 {
        0i32
    }

    open spec fn one_spec() -> i32 {
        1i32
    }

    open spec fn add_spec(self, other: i32) -> i32 {
        self.wrapping_add(other)
    }

    open spec fn mul_spec(self, other: i32) -> i32 {
        self.wrapping_mul(other)
    }

    proof fn lemma_add_comm(x: i32, y: i32) {
    }

    proof fn lemma_add_zero(x: i32) {
    }

    proof fn lemma_mul_comm(x: i32, y: i32) {
        assert(x as int * y as int == y as int * x as int) by (nonlinear_arith);
    }

    proof fn lemma_mul_one(x: i32) {
        assert(x.wrapping_mul(1i32) == x) by {
            lemma_signed_crop_identity_i32(x);
        };
        assert(1i32.wrapping_mul(x) == x) by {
            lemma_signed_crop_identity_i32(x);
        };
    }

    proof fn lemma_mul_zero(x: i32) {
    }

    fn zero() -> i32 {
        0i32
    }

    fn one() -> i32 {
        1i32
    }

    fn add(self, other: i32) -> i32 {
        self.wrapping_add(other)
    }

    fn mul(self, other: i32) -> i32 {
        self.wrapping_mul(other)
    }

    fn eq_elem(self, other: i32) -> bool {
        self == other
    }

    fn sample() -> i32 {
        random_i32()
    }
}

/// A value already in `i32`'s range is its own wrapped image.
proof fn lemma_signed_crop_identity_i32(x: i32)
    ensures
        vstd::wrapping::i32_specs::signed_crop(x as int) == x,
{
    let range = 0x1_0000_0000int;
    if x >= 0 {
        assert((x as int) % range == x as int) by (nonlinear_arith)
            requires
                0 <= (x as int),
                (x as int) < range;
    } else {
        assert((x as int) % range == x as int + range) by (nonlinear_arith)
            requires
                -range <= (x as int),
                (x as int) < 0;
    }
}

} // verus!
