//! The numbers that tensors hold.

use vstd::prelude::*;

verus! {

/// A number type for tensor elements.
///
/// Every operation is a pure function of its operands: the executable method
/// returns exactly what the specification function of the same operands
/// denotes. Nothing else is assumed of an implementation. In particular the
/// sum need not be associative, so contracts name the order in which terms
/// are added.
pub trait Scalar: Copy + Sized {
    /// The additive identity.
    spec fn zero_value() -> Self;

    /// The sum of `self` and `rhs`.
    spec fn sum(self, rhs: Self) -> Self;

    /// The product of `self` and `rhs`.
    spec fn product(self, rhs: Self) -> Self;

    /// Returns the additive identity.
    fn zero() -> (r: Self)
        ensures
            r == Self::zero_value(),
    ;

    /// Returns `self + rhs`.
    fn plus(self, rhs: Self) -> (r: Self)
        ensures
            r == self.sum(rhs),
    ;

    /// Returns `self * rhs`.
    fn times(self, rhs: Self) -> (r: Self)
        ensures
            r == self.product(rhs),
    ;
}

/// The algebraic laws under which sums may be regrouped and reordered:
/// addition is associative and commutative with `zero_value` as identity,
/// multiplication distributes over addition from both sides and `zero_value`
/// annihilates.
///
/// Exact number types obey them. Floating-point types do not: their sums
/// depend on the order of the terms.
#[verifier::opaque]
pub open spec fn obeys_semiring_laws<T: Scalar>() -> bool {
    &&& forall|a: T, b: T| #[trigger] a.sum(b) == b.sum(a)
    &&& forall|a: T, b: T, c: T| #[trigger] a.sum(b).sum(c) == a.sum(b.sum(c))
    &&& forall|a: T| #[trigger] a.sum(T::zero_value()) == a
    &&& forall|a: T, b: T, c: T| #[trigger] a.sum(b).product(c) == a.product(c).sum(b.product(c))
    &&& forall|a: T, b: T, c: T| #[trigger] c.product(a.sum(b)) == c.product(a).sum(c.product(b))
    &&& forall|a: T| #[trigger] T::zero_value().product(a) == T::zero_value()
    &&& forall|a: T| #[trigger] a.product(T::zero_value()) == T::zero_value()
}

/// Terms may be swapped.
pub proof fn lemma_sum_commutative<T: Scalar>(a: T, b: T)
    requires
        obeys_semiring_laws::<T>(),
    ensures
        a.sum(b) == b.sum(a),
{
    reveal(obeys_semiring_laws);
}

/// Sums may be regrouped.
pub proof fn lemma_sum_associative<T: Scalar>(a: T, b: T, c: T)
    requires
        obeys_semiring_laws::<T>(),
    ensures
        a.sum(b).sum(c) == a.sum(b.sum(c)),
{
    reveal(obeys_semiring_laws);
}

/// Adding zero changes nothing.
pub proof fn lemma_zero_is_identity<T: Scalar>(a: T)
    requires
        obeys_semiring_laws::<T>(),
    ensures
        a.sum(T::zero_value()) == a,
        T::zero_value().sum(a) == a,
{
    reveal(obeys_semiring_laws);
}

/// A sum times a factor is the sum of the products.
pub proof fn lemma_sum_distributes<T: Scalar>(a: T, b: T, c: T)
    requires
        obeys_semiring_laws::<T>(),
    ensures
        a.sum(b).product(c) == a.product(c).sum(b.product(c)),
        c.product(a.sum(b)) == c.product(a).sum(c.product(b)),
{
    reveal(obeys_semiring_laws);
}

/// A product with zero is zero.
pub proof fn lemma_zero_annihilates<T: Scalar>(a: T)
    requires
        obeys_semiring_laws::<T>(),
    ensures
        T::zero_value().product(a) == T::zero_value(),
        a.product(T::zero_value()) == T::zero_value(),
{
    reveal(obeys_semiring_laws);
}

/// Integers modulo 2^64, in two's complement: sums and products wrap.
impl Scalar for i64 {
    open spec fn zero_value() -> Self {
        0i64
    }

    open spec fn sum(self, rhs: Self) -> Self {
        vstd::wrapping::i64_specs::wrapping_add(self, rhs)
    }

    open spec fn product(self, rhs: Self) -> Self {
        vstd::wrapping::i64_specs::wrapping_mul(self, rhs)
    }

    fn zero() -> (r: Self) {
        0i64
    }

    fn plus(self, rhs: Self) -> (r: Self) {
        self.wrapping_add(rhs)
    }

    fn times(self, rhs: Self) -> (r: Self) {
        self.wrapping_mul(rhs)
    }
}

/// The modulus of 64-bit wrapping arithmetic.
pub open spec fn modulus() -> int {
    0x1_0000_0000_0000_0000
}

/// Two machine integers that differ by a multiple of the modulus are equal.
proof fn lemma_congruent_equal(r1: i64, r2: i64, k: int)
    requires
        r1 - r2 == k * modulus(),
    ensures
        r1 == r2,
{
    assert(k == 0) by (nonlinear_arith)
        requires
            r1 - r2 == k * 0x1_0000_0000_0000_0000,
            -0x1_0000_0000_0000_0000 < r1 - r2 < 0x1_0000_0000_0000_0000,
    ;
}

/// A wrapped product differs from the exact one by a multiple of the modulus.
proof fn lemma_product_wraps(x: i64, y: i64) -> (k: int)
    ensures
        x * y == x.product(y) + k * modulus(),
{
    let p = x * y;
    vstd::arithmetic::div_mod::lemma_fundamental_div_mod(p, modulus());
    vstd::arithmetic::div_mod::lemma_mod_bound(p, modulus());
    let q = p / modulus();
    assert(modulus() * q == q * modulus()) by (nonlinear_arith);
    if p % modulus() > i64::MAX {
        assert((q + 1) * modulus() == q * modulus() + modulus()) by (nonlinear_arith);
        q + 1
    } else {
        q
    }
}

/// A wrapped sum differs from the exact one by a multiple of the modulus.
proof fn lemma_sum_wraps(x: i64, y: i64) -> (k: int)
    ensures
        x + y == x.sum(y) + k * modulus(),
{
    if x + y > i64::MAX {
        1
    } else if x + y < i64::MIN {
        -1
    } else {
        0
    }
}

proof fn lemma_i64_sum_associative(a: i64, b: i64, c: i64)
    ensures
        a.sum(b).sum(c) == a.sum(b.sum(c)),
{
    let k1 = lemma_sum_wraps(a, b);
    let k2 = lemma_sum_wraps(a.sum(b), c);
    let k3 = lemma_sum_wraps(b, c);
    let k4 = lemma_sum_wraps(a, b.sum(c));
    assert((k3 + k4 - k1 - k2) * modulus() == k3 * modulus() + k4 * modulus() - k1 * modulus()
        - k2 * modulus()) by (nonlinear_arith);
    lemma_congruent_equal(a.sum(b).sum(c), a.sum(b.sum(c)), k3 + k4 - k1 - k2);
}

proof fn lemma_i64_product_distributes(a: i64, b: i64, c: i64)
    ensures
        a.sum(b).product(c) == a.product(c).sum(b.product(c)),
        c.product(a.sum(b)) == c.product(a).sum(c.product(b)),
{
    let m = modulus();
    let s = a.sum(b);
    let ks = lemma_sum_wraps(a, b);
    let ac = a.product(c);
    let bc = b.product(c);
    let kac = lemma_product_wraps(a, c);
    let kbc = lemma_product_wraps(b, c);
    let kr = lemma_sum_wraps(ac, bc);
    let kl = lemma_product_wraps(s, c);
    assert(s * c == a * c + b * c - (ks * c) * m) by (nonlinear_arith)
        requires
            a + b == s + ks * m,
    ;
    assert((kac + kbc + kr - kl - ks * c) * m == kac * m + kbc * m + kr * m - kl * m - (ks * c)
        * m) by (nonlinear_arith);
    lemma_congruent_equal(s.product(c), ac.sum(bc), kac + kbc + kr - kl - ks * c);

    let ca = c.product(a);
    let cb = c.product(b);
    let kca = lemma_product_wraps(c, a);
    let kcb = lemma_product_wraps(c, b);
    let kr2 = lemma_sum_wraps(ca, cb);
    let kl2 = lemma_product_wraps(c, s);
    assert(c * s == c * a + c * b - (c * ks) * m) by (nonlinear_arith)
        requires
            a + b == s + ks * m,
    ;
    assert((kca + kcb + kr2 - kl2 - c * ks) * m == kca * m + kcb * m + kr2 * m - kl2 * m - (c
        * ks) * m) by (nonlinear_arith);
    lemma_congruent_equal(c.product(s), ca.sum(cb), kca + kcb + kr2 - kl2 - c * ks);
}

/// Wrapping 64-bit integers form a commutative ring, so they obey the laws.
pub proof fn lemma_i64_obeys_semiring_laws()
    ensures
        obeys_semiring_laws::<i64>(),
{
    reveal(obeys_semiring_laws);
    assert forall|a: i64, b: i64, c: i64| #[trigger] a.sum(b).sum(c) == a.sum(b.sum(c)) by {
        lemma_i64_sum_associative(a, b, c);
    }
    assert forall|a: i64, b: i64, c: i64| #[trigger]
        a.sum(b).product(c) == a.product(c).sum(b.product(c)) by {
        lemma_i64_product_distributes(a, b, c);
    }
    assert forall|a: i64, b: i64, c: i64| #[trigger]
        c.product(a.sum(b)) == c.product(a).sum(c.product(b)) by {
        lemma_i64_product_distributes(a, b, c);
    }
    assert forall|a: i64| #[trigger] i64::zero_value().product(a) == i64::zero_value() by {
        assert(0i64 * a == 0);
        assert(0int % modulus() == 0);
    }
    assert forall|a: i64| #[trigger] a.product(i64::zero_value()) == i64::zero_value() by {
        assert(a * 0i64 == 0);
        assert(0int % modulus() == 0);
    }
}

} // verus!
