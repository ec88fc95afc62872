//! Matrices of integers modulo the group order.
//!
//! The proof system's commitments, proofs and verification equation are
//! stated over matrices of discrete logarithms.  This module defines those
//! matrices as sequences of rows of integers, their product, sum,
//! difference and transpose, and entrywise congruence modulo the group
//! order, and proves the ring identities that the completeness and
//! randomization arguments rest on: associativity and distributivity of
//! the product, the transpose of a product, and compatibility of every
//! operation with congruence.

use vstd::prelude::*;

use crate::group::group_order;
use crate::modular::congruent;
use crate::modular::lemma_congruent_add;
use crate::modular::lemma_congruent_mul;
use crate::modular::lemma_congruent_sub;
use vstd::arithmetic::div_mod::lemma_mod_equivalence;
use vstd::arithmetic::mul::lemma_mul_is_commutative;
use vstd::arithmetic::mul::lemma_mul_is_distributive_add_other_way;

verus! {

/// A well-formed matrix of `r` rows and `c` columns.
pub open spec fn wf(m: Seq<Seq<int>>, r: nat, c: nat) -> bool {
    m.len() == r && forall|i: int| 0 <= i < r ==> (#[trigger] m[i]).len() == c
}

/// The all-zero vector of length `n`.
pub open spec fn zvec(n: nat) -> Seq<int> {
    Seq::new(n, |i: int| 0)
}

/// The all-zero matrix of `r` rows and `c` columns.
pub open spec fn zmat(r: nat, c: nat) -> Seq<Seq<int>> {
    Seq::new(r, |i: int| zvec(c))
}

/// Pointwise sum of two vectors.
pub open spec fn vadd(a: Seq<int>, b: Seq<int>) -> Seq<int> {
    Seq::new(a.len(), |i: int| a[i] + b[i])
}

/// A vector scaled by `k`.
pub open spec fn vscale(k: int, a: Seq<int>) -> Seq<int> {
    Seq::new(a.len(), |i: int| k * a[i])
}

/// The inner product of two vectors; summation stops with the shorter one.
pub open spec fn dot(a: Seq<int>, b: Seq<int>) -> int
    decreases a.len(),
{
    if a.len() == 0 || b.len() == 0 {
        0
    } else {
        a[0] * b[0] + dot(a.drop_first(), b.drop_first())
    }
}

/// Column `j` of a matrix.
pub open spec fn col(m: Seq<Seq<int>>, j: int) -> Seq<int> {
    Seq::new(m.len(), |i: int| m[i][j])
}

/// The matrix product; `c` is the column count of `b` and of the result.
pub open spec fn mmul(a: Seq<Seq<int>>, b: Seq<Seq<int>>, c: nat) -> Seq<Seq<int>> {
    Seq::new(a.len(), |i: int| Seq::new(c, |j: int| dot(a[i], col(b, j))))
}

/// The entrywise sum of two matrices.
pub open spec fn madd(a: Seq<Seq<int>>, b: Seq<Seq<int>>) -> Seq<Seq<int>> {
    Seq::new(a.len(), |i: int| Seq::new(a[i].len(), |j: int| a[i][j] + b[i][j]))
}

/// The entrywise difference of two matrices.
pub open spec fn msub(a: Seq<Seq<int>>, b: Seq<Seq<int>>) -> Seq<Seq<int>> {
    Seq::new(a.len(), |i: int| Seq::new(a[i].len(), |j: int| a[i][j] - b[i][j]))
}

/// The transpose of a matrix of `c` columns.
pub open spec fn mtr(m: Seq<Seq<int>>, c: nat) -> Seq<Seq<int>> {
    Seq::new(c, |j: int| col(m, j))
}

/// Entrywise congruence of two vectors modulo the group order.
pub open spec fn vcong(a: Seq<int>, b: Seq<int>) -> bool {
    a.len() == b.len() && forall|i: int|
        0 <= i < a.len() ==> congruent(#[trigger] a[i], #[trigger] b[i])
}

/// Entrywise congruence of two matrices modulo the group order: they have
/// the same shape and stand for the same matrix of group elements.
pub open spec fn mcong(a: Seq<Seq<int>>, b: Seq<Seq<int>>) -> bool {
    a.len() == b.len() && forall|i: int|
        0 <= i < a.len() ==> vcong(#[trigger] a[i], #[trigger] b[i])
}

// Facts about the inner product.

pub proof fn lemma_dot_zero_right(u: Seq<int>, n: nat)
    requires
        u.len() == n,
    ensures
        dot(u, zvec(n)) == 0,
    decreases n,
{
    if n > 0 {
        assert(zvec(n).drop_first() =~= zvec((n - 1) as nat));
        lemma_dot_zero_right(u.drop_first(), (n - 1) as nat);
        vstd::arithmetic::mul::lemma_mul_basics(u[0]);
        assert(zvec(n)[0] == 0);
    }
}

pub proof fn lemma_dot_comm(a: Seq<int>, b: Seq<int>)
    requires
        a.len() == b.len(),
    ensures
        dot(a, b) == dot(b, a),
    decreases a.len(),
{
    if a.len() > 0 {
        lemma_dot_comm(a.drop_first(), b.drop_first());
        lemma_mul_is_commutative(a[0], b[0]);
    }
}

pub proof fn lemma_dot_add_left(a: Seq<int>, b: Seq<int>, v: Seq<int>)
    requires
        a.len() == b.len(),
        a.len() == v.len(),
    ensures
        dot(vadd(a, b), v) == dot(a, v) + dot(b, v),
    decreases a.len(),
{
    if a.len() > 0 {
        assert(vadd(a, b).drop_first() =~= vadd(a.drop_first(), b.drop_first()));
        lemma_dot_add_left(a.drop_first(), b.drop_first(), v.drop_first());
        assert((a[0] + b[0]) * v[0] == a[0] * v[0] + b[0] * v[0]) by {
            lemma_mul_is_distributive_add_other_way(v[0], a[0], b[0]);
        }
    }
}

pub proof fn lemma_dot_add_right(u: Seq<int>, a: Seq<int>, b: Seq<int>)
    requires
        a.len() == b.len(),
        u.len() == a.len(),
    ensures
        dot(u, vadd(a, b)) == dot(u, a) + dot(u, b),
{
    lemma_dot_comm(u, vadd(a, b));
    lemma_dot_add_left(a, b, u);
    lemma_dot_comm(a, u);
    lemma_dot_comm(b, u);
}

pub proof fn lemma_dot_scale_left(k: int, a: Seq<int>, v: Seq<int>)
    requires
        a.len() == v.len(),
    ensures
        dot(vscale(k, a), v) == k * dot(a, v),
    decreases a.len(),
{
    if a.len() == 0 {
        assert(k * dot(a, v) == 0) by {
            vstd::arithmetic::mul::lemma_mul_basics(k);
        }
    } else {
        assert(vscale(k, a).drop_first() =~= vscale(k, a.drop_first()));
        lemma_dot_scale_left(k, a.drop_first(), v.drop_first());
        assert((k * a[0]) * v[0] + k * dot(a.drop_first(), v.drop_first()) == k * (a[0] * v[0]
            + dot(a.drop_first(), v.drop_first()))) by (nonlinear_arith);
    }
}

/// Scaling every entry of `a` by `w` on the right multiplies the inner
/// product by `w`.
pub proof fn lemma_dot_factor(u: Seq<int>, a: Seq<int>, w: int)
    requires
        u.len() == a.len(),
    ensures
        dot(u, Seq::new(a.len(), |i: int| a[i] * w)) == dot(u, a) * w,
    decreases u.len(),
{
    let scaled = Seq::new(a.len(), |i: int| a[i] * w);
    if u.len() == 0 {
        vstd::arithmetic::mul::lemma_mul_basics(w);
    } else {
        assert(scaled.drop_first() =~= Seq::new(
            a.drop_first().len(),
            |i: int| a.drop_first()[i] * w,
        ));
        lemma_dot_factor(u.drop_first(), a.drop_first(), w);
        assert(u[0] * (a[0] * w) + dot(u.drop_first(), a.drop_first()) * w == (u[0] * a[0] + dot(
            u.drop_first(),
            a.drop_first(),
        )) * w) by (nonlinear_arith);
    }
}

/// Extending both vectors by one matching entry adds one product term.
pub proof fn lemma_dot_take_step(u: Seq<int>, v: Seq<int>, k: int)
    requires
        0 <= k < u.len(),
        k < v.len(),
    ensures
        dot(u.take(k + 1), v.take(k + 1)) == dot(u.take(k), v.take(k)) + u[k] * v[k],
    decreases k,
{
    if k == 0 {
        assert(u.take(1).drop_first() =~= u.take(0));
        assert(v.take(1).drop_first() =~= v.take(0));
    } else {
        lemma_dot_take_step(u.drop_first(), v.drop_first(), k - 1);
        assert(u.take(k + 1).drop_first() =~= u.drop_first().take(k));
        assert(v.take(k + 1).drop_first() =~= v.drop_first().take(k));
        assert(u.take(k).drop_first() =~= u.drop_first().take(k - 1));
        assert(v.take(k).drop_first() =~= v.drop_first().take(k - 1));
    }
}

/// Inner products of entrywise congruent vectors are congruent.
pub proof fn lemma_dot_cong(a: Seq<int>, a2: Seq<int>, b: Seq<int>, b2: Seq<int>)
    requires
        vcong(a, a2),
        vcong(b, b2),
        a.len() == b.len(),
    ensures
        congruent(dot(a, b), dot(a2, b2)),
    decreases a.len(),
{
    if a.len() == 0 {
    } else {
        assert(vcong(a.drop_first(), a2.drop_first()));
        assert(vcong(b.drop_first(), b2.drop_first()));
        lemma_dot_cong(a.drop_first(), a2.drop_first(), b.drop_first(), b2.drop_first());
        lemma_congruent_mul(a[0], a2[0], b[0], b2[0]);
        lemma_congruent_add(
            a[0] * b[0],
            a2[0] * b2[0],
            dot(a.drop_first(), b.drop_first()),
            dot(a2.drop_first(), b2.drop_first()),
        );
    }
}

/// A row vector times a matrix, and a matrix times a column vector.
pub open spec fn vm(u: Seq<int>, b: Seq<Seq<int>>, c: nat) -> Seq<int> {
    Seq::new(c, |j: int| dot(u, col(b, j)))
}

pub open spec fn mv(b: Seq<Seq<int>>, v: Seq<int>) -> Seq<int> {
    Seq::new(b.len(), |i: int| dot(b[i], v))
}

/// The two ways of evaluating `u · B · v` agree.
pub proof fn lemma_vm_mv(u: Seq<int>, b: Seq<Seq<int>>, v: Seq<int>, c: nat)
    requires
        wf(b, u.len() as nat, c),
        v.len() == c,
    ensures
        dot(vm(u, b, c), v) == dot(u, mv(b, v)),
    decreases u.len(),
{
    if u.len() == 0 {
        assert(vm(u, b, c) =~= zvec(c));
        lemma_dot_zero_right(v, c);
        lemma_dot_comm(zvec(c), v);
    } else {
        let u1 = u.drop_first();
        let b1 = b.drop_first();
        assert(wf(b1, u1.len() as nat, c));
        lemma_vm_mv(u1, b1, v, c);
        assert forall|j: int| 0 <= j < c implies vm(u, b, c)[j] == vscale(u[0], b[0])[j] + vm(
            u1,
            b1,
            c,
        )[j] by {
            assert(col(b, j).drop_first() =~= col(b1, j));
        }
        assert(vm(u, b, c) =~= vadd(vscale(u[0], b[0]), vm(u1, b1, c)));
        lemma_dot_add_left(vscale(u[0], b[0]), vm(u1, b1, c), v);
        lemma_dot_scale_left(u[0], b[0], v);
        assert(mv(b, v).drop_first() =~= mv(b1, v));
    }
}

// Facts about the matrix operations.

/// The matrix product is associative.
pub proof fn lemma_mmul_assoc(
    a: Seq<Seq<int>>,
    b: Seq<Seq<int>>,
    c: Seq<Seq<int>>,
    m: nat,
    n: nat,
    p: nat,
    q: nat,
)
    requires
        wf(a, m, n),
        wf(b, n, p),
        wf(c, p, q),
    ensures
        mmul(mmul(a, b, p), c, q) == mmul(a, mmul(b, c, q), q),
{
    assert forall|i: int, j: int| 0 <= i < m && 0 <= j < q implies mmul(mmul(a, b, p), c, q)[i][j]
        == mmul(a, mmul(b, c, q), q)[i][j] by {
        assert(mmul(a, b, p)[i] =~= vm(a[i], b, p));
        lemma_vm_mv(a[i], b, col(c, j), p);
        assert(mv(b, col(c, j)) =~= col(mmul(b, c, q), j));
    }
    assert(mmul(mmul(a, b, p), c, q) =~~= mmul(a, mmul(b, c, q), q));
}

/// The product distributes over a sum on the right.
pub proof fn lemma_mmul_dist_add_right(
    a: Seq<Seq<int>>,
    b: Seq<Seq<int>>,
    c: Seq<Seq<int>>,
    m: nat,
    n: nat,
    p: nat,
)
    requires
        wf(a, m, n),
        wf(b, n, p),
        wf(c, n, p),
    ensures
        mmul(a, madd(b, c), p) == madd(mmul(a, b, p), mmul(a, c, p)),
{
    assert forall|i: int, j: int| 0 <= i < m && 0 <= j < p implies mmul(a, madd(b, c), p)[i][j]
        == madd(mmul(a, b, p), mmul(a, c, p))[i][j] by {
        assert(col(madd(b, c), j) =~= vadd(col(b, j), col(c, j)));
        lemma_dot_add_right(a[i], col(b, j), col(c, j));
    }
    assert(mmul(a, madd(b, c), p) =~~= madd(mmul(a, b, p), mmul(a, c, p)));
}

/// The product distributes over a sum on the left.
pub proof fn lemma_mmul_dist_add_left(
    a: Seq<Seq<int>>,
    b: Seq<Seq<int>>,
    c: Seq<Seq<int>>,
    m: nat,
    n: nat,
    p: nat,
)
    requires
        wf(a, m, n),
        wf(b, m, n),
        wf(c, n, p),
    ensures
        mmul(madd(a, b), c, p) == madd(mmul(a, c, p), mmul(b, c, p)),
{
    assert forall|i: int, j: int| 0 <= i < m && 0 <= j < p implies mmul(madd(a, b), c, p)[i][j]
        == madd(mmul(a, c, p), mmul(b, c, p))[i][j] by {
        assert(madd(a, b)[i] =~= vadd(a[i], b[i]));
        lemma_dot_add_left(a[i], b[i], col(c, j));
    }
    assert(mmul(madd(a, b), c, p) =~~= madd(mmul(a, c, p), mmul(b, c, p)));
}

/// The transpose of a product is the product of the transposes, in the
/// other order.
pub proof fn lemma_mtr_mmul(a: Seq<Seq<int>>, b: Seq<Seq<int>>, m: nat, n: nat, p: nat)
    requires
        wf(a, m, n),
        wf(b, n, p),
    ensures
        mtr(mmul(a, b, p), p) == mmul(mtr(b, p), mtr(a, n), m),
{
    assert forall|j: int, i: int| 0 <= j < p && 0 <= i < m implies mtr(mmul(a, b, p), p)[j][i]
        == mmul(mtr(b, p), mtr(a, n), m)[j][i] by {
        assert(col(mtr(a, n), i) =~= a[i]);
        assert(mtr(b, p)[j] =~= col(b, j));
        lemma_dot_comm(a[i], col(b, j));
    }
    assert(mtr(mmul(a, b, p), p) =~~= mmul(mtr(b, p), mtr(a, n), m));
}

/// The transpose of a sum is the sum of the transposes.
pub proof fn lemma_mtr_madd(a: Seq<Seq<int>>, b: Seq<Seq<int>>, m: nat, c: nat)
    requires
        wf(a, m, c),
        wf(b, m, c),
    ensures
        mtr(madd(a, b), c) == madd(mtr(a, c), mtr(b, c)),
{
    assert(mtr(madd(a, b), c) =~~= madd(mtr(a, c), mtr(b, c)));
}

/// A product with the zero matrix is zero.
pub proof fn lemma_mmul_zero_right(a: Seq<Seq<int>>, m: nat, n: nat, p: nat)
    requires
        wf(a, m, n),
    ensures
        mmul(a, zmat(n, p), p) == zmat(m, p),
{
    assert forall|i: int, j: int| 0 <= i < m && 0 <= j < p implies mmul(a, zmat(n, p), p)[i][j]
        == 0 by {
        assert(col(zmat(n, p), j) =~= zvec(n));
        lemma_dot_zero_right(a[i], n);
    }
    assert(mmul(a, zmat(n, p), p) =~~= zmat(m, p));
}

/// Adding the zero matrix changes nothing.
pub proof fn lemma_madd_zero(a: Seq<Seq<int>>, m: nat, c: nat)
    requires
        wf(a, m, c),
    ensures
        madd(a, zmat(m, c)) == a,
        madd(zmat(m, c), a) == a,
{
    assert(madd(a, zmat(m, c)) =~~= a);
    assert(madd(zmat(m, c), a) =~~= a);
}

// Compatibility of the operations with congruence.

pub proof fn lemma_mcong_refl(a: Seq<Seq<int>>)
    ensures
        mcong(a, a),
{
}

pub proof fn lemma_mcong_madd(
    a: Seq<Seq<int>>,
    a2: Seq<Seq<int>>,
    b: Seq<Seq<int>>,
    b2: Seq<Seq<int>>,
    m: nat,
    c: nat,
)
    requires
        mcong(a, a2),
        mcong(b, b2),
        wf(a, m, c),
        wf(b, m, c),
    ensures
        mcong(madd(a, b), madd(a2, b2)),
{
    assert forall|i: int| 0 <= i < m implies vcong(
        #[trigger] madd(a, b)[i],
        madd(a2, b2)[i],
    ) by {
        assert forall|j: int| 0 <= j < c implies congruent(
            #[trigger] madd(a, b)[i][j],
            madd(a2, b2)[i][j],
        ) by {
            lemma_congruent_add(a[i][j], a2[i][j], b[i][j], b2[i][j]);
        }
    }
}

pub proof fn lemma_mcong_msub(
    a: Seq<Seq<int>>,
    a2: Seq<Seq<int>>,
    b: Seq<Seq<int>>,
    b2: Seq<Seq<int>>,
    m: nat,
    c: nat,
)
    requires
        mcong(a, a2),
        mcong(b, b2),
        wf(a, m, c),
        wf(b, m, c),
    ensures
        mcong(msub(a, b), msub(a2, b2)),
{
    assert forall|i: int| 0 <= i < m implies vcong(
        #[trigger] msub(a, b)[i],
        msub(a2, b2)[i],
    ) by {
        assert forall|j: int| 0 <= j < c implies congruent(
            #[trigger] msub(a, b)[i][j],
            msub(a2, b2)[i][j],
        ) by {
            lemma_congruent_sub(a[i][j], a2[i][j], b[i][j], b2[i][j]);
        }
    }
}

pub proof fn lemma_mcong_mmul(
    a: Seq<Seq<int>>,
    a2: Seq<Seq<int>>,
    b: Seq<Seq<int>>,
    b2: Seq<Seq<int>>,
    m: nat,
    n: nat,
    p: nat,
)
    requires
        mcong(a, a2),
        mcong(b, b2),
        wf(a, m, n),
        wf(b, n, p),
    ensures
        mcong(mmul(a, b, p), mmul(a2, b2, p)),
{
    assert forall|i: int| 0 <= i < m implies vcong(
        #[trigger] mmul(a, b, p)[i],
        mmul(a2, b2, p)[i],
    ) by {
        assert forall|j: int| 0 <= j < p implies congruent(
            #[trigger] mmul(a, b, p)[i][j],
            mmul(a2, b2, p)[i][j],
        ) by {
            assert(vcong(col(b, j), col(b2, j)));
            lemma_dot_cong(a[i], a2[i], col(b, j), col(b2, j));
        }
    }
}

pub proof fn lemma_mcong_mtr(a: Seq<Seq<int>>, a2: Seq<Seq<int>>, m: nat, c: nat)
    requires
        mcong(a, a2),
        wf(a, m, c),
    ensures
        mcong(mtr(a, c), mtr(a2, c)),
{
    assert forall|j: int| 0 <= j < c implies vcong(#[trigger] mtr(a, c)[j], mtr(a2, c)[j]) by {
        assert(vcong(col(a, j), col(a2, j)));
        assert(mtr(a, c)[j] == col(a, j));
        assert(mtr(a2, c)[j] == col(a2, j));
    }
}

/// Congruence is unchanged by adding congruent increments to both sides.
pub proof fn lemma_mcong_cancel_add(
    x: Seq<Seq<int>>,
    y: Seq<Seq<int>>,
    d: Seq<Seq<int>>,
    d2: Seq<Seq<int>>,
    m: nat,
    c: nat,
)
    requires
        mcong(d, d2),
        wf(x, m, c),
        wf(y, m, c),
        wf(d, m, c),
    ensures
        mcong(madd(x, d), madd(y, d2)) <==> mcong(x, y),
{
    let q = group_order();
    if mcong(x, y) {
        lemma_mcong_madd(x, y, d, d2, m, c);
    }
    if mcong(madd(x, d), madd(y, d2)) {
        assert forall|i: int| 0 <= i < m implies vcong(#[trigger] x[i], y[i]) by {
            assert forall|j: int| 0 <= j < c implies congruent(
                #[trigger] x[i][j],
                #[trigger] y[i][j],
            ) by {
                assert(congruent(madd(x, d)[i][j], madd(y, d2)[i][j]));
                lemma_mod_equivalence(x[i][j] + d[i][j], y[i][j] + d2[i][j], q);
                lemma_mod_equivalence(d[i][j], d2[i][j], q);
                lemma_mod_equivalence(x[i][j], y[i][j], q);
                assert((x[i][j] + d[i][j]) - (y[i][j] + d2[i][j]) == (x[i][j] - y[i][j]) + (d[i][j]
                    - d2[i][j]));
                vstd::arithmetic::div_mod::lemma_add_mod_noop(
                    x[i][j] - y[i][j],
                    d[i][j] - d2[i][j],
                    q,
                );
                vstd::arithmetic::div_mod::lemma_mod_twice(x[i][j] - y[i][j], q);
            }
        }
    }
}

/// Pointwise difference of two vectors.
pub open spec fn vsub(a: Seq<int>, b: Seq<int>) -> Seq<int> {
    Seq::new(a.len(), |i: int| a[i] - b[i])
}

pub proof fn lemma_dot_sub_right(u: Seq<int>, a: Seq<int>, b: Seq<int>)
    requires
        a.len() == b.len(),
        u.len() == a.len(),
    ensures
        dot(u, vsub(a, b)) == dot(u, a) - dot(u, b),
    decreases u.len(),
{
    if u.len() > 0 {
        assert(vsub(a, b).drop_first() =~= vsub(a.drop_first(), b.drop_first()));
        lemma_dot_sub_right(u.drop_first(), a.drop_first(), b.drop_first());
        assert(u[0] * (a[0] - b[0]) == u[0] * a[0] - u[0] * b[0]) by {
            vstd::arithmetic::mul::lemma_mul_is_distributive_sub(u[0], a[0], b[0]);
        }
    }
}

/// The product distributes over a difference on the right.
pub proof fn lemma_mmul_dist_sub_right(
    a: Seq<Seq<int>>,
    b: Seq<Seq<int>>,
    c: Seq<Seq<int>>,
    m: nat,
    n: nat,
    p: nat,
)
    requires
        wf(a, m, n),
        wf(b, n, p),
        wf(c, n, p),
    ensures
        mmul(a, msub(b, c), p) == msub(mmul(a, b, p), mmul(a, c, p)),
{
    assert forall|i: int, j: int| 0 <= i < m && 0 <= j < p implies mmul(a, msub(b, c), p)[i][j]
        == msub(mmul(a, b, p), mmul(a, c, p))[i][j] by {
        assert(col(msub(b, c), j) =~= vsub(col(b, j), col(c, j)));
        lemma_dot_sub_right(a[i], col(b, j), col(c, j));
    }
    assert(mmul(a, msub(b, c), p) =~~= msub(mmul(a, b, p), mmul(a, c, p)));
}

/// A product with the zero matrix on the left is zero.
pub proof fn lemma_mmul_zero_left(b: Seq<Seq<int>>, m: nat, n: nat, p: nat)
    requires
        wf(b, n, p),
    ensures
        mmul(zmat(m, n), b, p) == zmat(m, p),
{
    assert forall|i: int, j: int| 0 <= i < m && 0 <= j < p implies mmul(zmat(m, n), b, p)[i][j]
        == 0 by {
        lemma_dot_comm(zvec(n), col(b, j));
        lemma_dot_zero_right(col(b, j), n);
    }
    assert(mmul(zmat(m, n), b, p) =~~= zmat(m, p));
}

/// Transposing twice gives the matrix back.
pub proof fn lemma_mtr_mtr(a: Seq<Seq<int>>, r: nat, c: nat)
    requires
        wf(a, r, c),
    ensures
        mtr(mtr(a, c), r) == a,
{
    assert(mtr(mtr(a, c), r) =~~= a);
}

pub proof fn lemma_mcong_sym(a: Seq<Seq<int>>, b: Seq<Seq<int>>)
    requires
        mcong(a, b),
    ensures
        mcong(b, a),
{
    assert forall|i: int| 0 <= i < b.len() implies vcong(#[trigger] b[i], a[i]) by {
        assert(vcong(a[i], b[i]));
    }
}

pub proof fn lemma_mcong_trans(a: Seq<Seq<int>>, b: Seq<Seq<int>>, c: Seq<Seq<int>>)
    requires
        mcong(a, b),
        mcong(b, c),
    ensures
        mcong(a, c),
{
    assert forall|i: int| 0 <= i < a.len() implies vcong(#[trigger] a[i], c[i]) by {
        assert(vcong(a[i], b[i]));
        assert(vcong(b[i], c[i]));
        assert forall|j: int| 0 <= j < a[i].len() implies congruent(
            #[trigger] a[i][j],
            #[trigger] c[i][j],
        ) by {
            assert(congruent(a[i][j], b[i][j]));
            assert(congruent(b[i][j], c[i][j]));
        }
    }
}

/// The inner product of two singleton vectors is the product of their
/// entries.
pub proof fn lemma_dot_single(x: int, y: int)
    ensures
        dot(seq![x], seq![y]) == x * y,
{
    assert(seq![x].drop_first() =~= Seq::<int>::empty());
    assert(dot(seq![x].drop_first(), seq![y].drop_first()) == 0);
    assert(seq![x][0] == x && seq![y][0] == y);
}

/// Shapes of the operations' results.
pub proof fn lemma_mmul_wf(a: Seq<Seq<int>>, b: Seq<Seq<int>>, p: nat)
    ensures
        wf(mmul(a, b, p), a.len() as nat, p),
{
}

pub proof fn lemma_madd_wf(a: Seq<Seq<int>>, b: Seq<Seq<int>>, m: nat, c: nat)
    requires
        wf(a, m, c),
    ensures
        wf(madd(a, b), m, c),
{
}

pub proof fn lemma_msub_wf(a: Seq<Seq<int>>, b: Seq<Seq<int>>, m: nat, c: nat)
    requires
        wf(a, m, c),
    ensures
        wf(msub(a, b), m, c),
{
}

pub proof fn lemma_mtr_wf(a: Seq<Seq<int>>, r: nat, c: nat)
    requires
        a.len() == r,
    ensures
        wf(mtr(a, c), c, r),
{
}

/// Replacing both sides of a congruence test by congruent matrices does not
/// change its outcome.
pub proof fn lemma_mcong_replace(
    a: Seq<Seq<int>>,
    a2: Seq<Seq<int>>,
    b: Seq<Seq<int>>,
    b2: Seq<Seq<int>>,
)
    requires
        mcong(a, a2),
        mcong(b, b2),
    ensures
        mcong(a, b) == mcong(a2, b2),
{
    if mcong(a, b) {
        lemma_mcong_sym(a, a2);
        lemma_mcong_trans(a2, a, b);
        lemma_mcong_trans(a2, b, b2);
    }
    if mcong(a2, b2) {
        lemma_mcong_trans(a, a2, b2);
        lemma_mcong_sym(b, b2);
        lemma_mcong_trans(a, b2, b);
    }
}

} // verus!
