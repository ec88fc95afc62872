//! Arithmetic modulo the group order.
//!
//! The contracts of this library state every group computation over the
//! discrete logarithms of the values, as integers modulo `group_order()`.
//! This module collects the small facts about that arithmetic which the
//! proofs use throughout: reduction is idempotent, congruence is preserved
//! by sums, differences and products, and a multiple of the order vanishes.

use vstd::prelude::*;

use crate::group::group_order;
use vstd::arithmetic::div_mod::lemma_add_mod_noop;
use vstd::arithmetic::div_mod::lemma_add_mod_noop_right;
use vstd::arithmetic::div_mod::lemma_fundamental_div_mod;
use vstd::arithmetic::div_mod::lemma_mod_add_multiples_vanish;
use vstd::arithmetic::div_mod::lemma_mod_equivalence;
use vstd::arithmetic::div_mod::lemma_mod_multiples_vanish;
use vstd::arithmetic::div_mod::lemma_mod_twice;
use vstd::arithmetic::div_mod::lemma_mul_mod_noop_general;
use vstd::arithmetic::div_mod::lemma_sub_mod_noop;
use vstd::arithmetic::div_mod::lemma_sub_mod_noop_right;
use vstd::arithmetic::mul::lemma_mul_is_associative;
use vstd::arithmetic::mul::lemma_mul_is_commutative;
use vstd::arithmetic::mul::lemma_mul_is_distributive_sub;

verus! {

/// Two integers stand for the same group element or scalar when they agree
/// modulo the group order.
pub open spec fn congruent(a: int, b: int) -> bool {
    a % group_order() == b % group_order()
}

/// Reducing twice is reducing once, and a reduced value is congruent to the
/// value it came from.
pub proof fn lemma_reduce(a: int)
    ensures
        (a % group_order()) % group_order() == a % group_order(),
        congruent(a % group_order(), a),
        0 <= a % group_order() < group_order(),
{
    lemma_mod_twice(a, group_order());
}

/// A value already in range is its own residue.
pub proof fn lemma_small(a: int)
    requires
        0 <= a < group_order(),
    ensures
        a % group_order() == a,
{
    vstd::arithmetic::div_mod::lemma_small_mod(a as nat, group_order() as nat);
}

/// Sums of congruent terms are congruent; in particular the sum of reduced
/// terms is congruent to the sum of the originals.
pub proof fn lemma_congruent_add(a1: int, a2: int, b1: int, b2: int)
    requires
        congruent(a1, a2),
        congruent(b1, b2),
    ensures
        congruent(a1 + b1, a2 + b2),
{
    let q = group_order();
    lemma_add_mod_noop(a1, b1, q);
    lemma_add_mod_noop(a2, b2, q);
}

/// Differences of congruent terms are congruent.
pub proof fn lemma_congruent_sub(a1: int, a2: int, b1: int, b2: int)
    requires
        congruent(a1, a2),
        congruent(b1, b2),
    ensures
        congruent(a1 - b1, a2 - b2),
{
    let q = group_order();
    lemma_sub_mod_noop(a1, b1, q);
    lemma_sub_mod_noop(a2, b2, q);
}

/// Products of congruent factors are congruent.
pub proof fn lemma_congruent_mul(a1: int, a2: int, b1: int, b2: int)
    requires
        congruent(a1, a2),
        congruent(b1, b2),
    ensures
        congruent(a1 * b1, a2 * b2),
{
    let q = group_order();
    lemma_mul_mod_noop_general(a1, b1, q);
    lemma_mul_mod_noop_general(a2, b2, q);
}

/// The order minus a value is congruent to the negated value.
pub proof fn lemma_congruent_neg(a: int)
    ensures
        congruent(group_order() - a, -a),
{
    lemma_mod_add_multiples_vanish(-a, group_order());
}

/// Adding the same multiple of congruent values does not change a residue.
pub proof fn lemma_add_multiple_congruent(t: int, w: int, u: int, v: int)
    requires
        congruent(u, v),
    ensures
        (t + w * u) % group_order() == (t + w * v) % group_order(),
{
    let q = group_order();
    lemma_mod_equivalence(u, v, q);
    lemma_fundamental_div_mod(u - v, q);
    let d = (u - v) / q;
    assert(u - v == q * d);
    assert(w * (u - v) == w * (q * d));
    assert(w * (q * d) == q * (w * d)) by {
        lemma_mul_is_associative(w, q, d);
        lemma_mul_is_commutative(w, q);
        lemma_mul_is_associative(q, w, d);
    }
    assert(w * u - w * v == w * (u - v)) by {
        lemma_mul_is_distributive_sub(w, u, v);
    }
    assert(t + w * u == q * (w * d) + (t + w * v));
    lemma_mod_multiples_vanish(w * d, t + w * v, q);
}

/// The left form of the sum-reduction fact: reducing one summand first does
/// not change the residue of the sum.
pub proof fn lemma_add_mod_left(a: int, b: int)
    ensures
        ((a % group_order()) + b) % group_order() == (a + b) % group_order(),
        (a + (b % group_order())) % group_order() == (a + b) % group_order(),
{
    let q = group_order();
    lemma_add_mod_noop(a, b, q);
    lemma_add_mod_noop_right(a % q, b, q);
    lemma_mod_twice(b, q);
    lemma_add_mod_noop_right(a, b, q);
}

/// The matching fact for differences.
pub proof fn lemma_sub_mod_left(a: int, b: int)
    ensures
        ((a % group_order()) - b) % group_order() == (a - b) % group_order(),
        (a - (b % group_order())) % group_order() == (a - b) % group_order(),
{
    let q = group_order();
    lemma_sub_mod_noop(a, b, q);
    lemma_sub_mod_noop_right(a % q, b, q);
    lemma_mod_twice(b, q);
    lemma_sub_mod_noop_right(a, b, q);
}

/// The matching fact for products.
pub proof fn lemma_mul_mod_left(a: int, b: int)
    ensures
        ((a % group_order()) * b) % group_order() == (a * b) % group_order(),
        (a * (b % group_order())) % group_order() == (a * b) % group_order(),
{
    let q = group_order();
    lemma_mul_mod_noop_general(a, b, q);
}

} // verus!
