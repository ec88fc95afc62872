//! Small matrices of group elements and scalars.
//!
//! The proof system works with matrices of shapes such as m×2, n×1, 1×2 and
//! 2×2 over the scalar field and the three groups.  They are held as vectors
//! of rows, and every operation carries a contract over the matrices of
//! discrete logarithms defined in [`crate::matspec`].

use vstd::prelude::*;

use crate::group::g1_log;
use crate::group::g2_add;
use crate::group::g2_log;
use crate::group::g2_mul;
use crate::group::g2_neg;
use crate::group::g2_zero;
use crate::group::group_order;
use crate::group::gt_add;
use crate::group::gt_eq;
use crate::group::gt_log;
use crate::group::gt_zero;
use crate::group::pairing;
use crate::group::scalar_of;
use crate::group::Fr;
use crate::group::Rng;
use crate::group::G1;
use crate::group::G2;
use crate::group::Gt;
use crate::matspec::col;
use crate::matspec::dot;
use crate::matspec::lemma_dot_take_step;
use crate::matspec::madd;
use crate::matspec::mcong;
use crate::matspec::mmul;
use crate::matspec::msub;
use crate::matspec::mtr;
use crate::matspec::vcong;
use crate::matspec::wf;
use crate::modular::congruent;
use crate::modular::lemma_congruent_add;
use crate::modular::lemma_reduce;
use vstd::arithmetic::mul::lemma_mul_is_commutative;

verus! {

/// The matrix of scalar values that a matrix of field elements stands for.
pub open spec fn mat_fr(m: Vec<Vec<Fr>>) -> Seq<Seq<int>> {
    m@.map_values(|row: Vec<Fr>| row@.map_values(|x: Fr| scalar_of(x)))
}

/// The matrix of discrete logarithms of a matrix of G1 points.
pub open spec fn mat_g1(m: Vec<Vec<G1>>) -> Seq<Seq<int>> {
    m@.map_values(|row: Vec<G1>| row@.map_values(|x: G1| g1_log(x)))
}

/// The matrix of discrete logarithms of a matrix of G2 points.
pub open spec fn mat_g2(m: Vec<Vec<G2>>) -> Seq<Seq<int>> {
    m@.map_values(|row: Vec<G2>| row@.map_values(|x: G2| g2_log(x)))
}

/// The matrix of discrete logarithms of a matrix of target-group elements.
pub open spec fn mat_gt(m: Vec<Vec<Gt>>) -> Seq<Seq<int>> {
    m@.map_values(|row: Vec<Gt>| row@.map_values(|x: Gt| gt_log(x)))
}

/// The vector of discrete logarithms of a vector of G1 points.
pub open spec fn vec_g1(v: Vec<G1>) -> Seq<int> {
    v@.map_values(|x: G1| g1_log(x))
}

/// The vector of scalar values of a vector of field elements.
pub open spec fn vec_fr(v: Vec<Fr>) -> Seq<int> {
    v@.map_values(|x: Fr| scalar_of(x))
}

/// Multiplies a matrix of scalars (left) with a matrix of G1 points
/// (right); `n` is the column count of `b`.
pub(crate) fn smul_g1(a: &Vec<Vec<Fr>>, b: &Vec<Vec<G1>>, n: usize) -> (res: Vec<Vec<G1>>)
    requires
        wf(mat_fr(*a), a@.len() as nat, b@.len() as nat),
        wf(mat_g1(*b), b@.len() as nat, n as nat),
    ensures
        wf(mat_g1(res), a@.len() as nat, n as nat),
        mcong(mat_g1(res), mmul(mat_fr(*a), mat_g1(*b), n as nat)),
{
    let ghost va = mat_fr(*a);
    let ghost vb = mat_g1(*b);
    let ghost target = mmul(va, vb, n as nat);
    let m = a.len();
    let k = b.len();
    let mut res: Vec<Vec<G1>> = Vec::new();
    let mut i: usize = 0;
    while i < m
        invariant
            i <= m,
            m == a@.len(),
            k == b@.len(),
            va == mat_fr(*a),
            vb == mat_g1(*b),
            target == mmul(va, vb, n as nat),
            wf(va, m as nat, k as nat),
            wf(vb, k as nat, n as nat),
            res@.len() == i,
            forall|ii: int| 0 <= ii < i ==> vcong(#[trigger] mat_g1(res)[ii], target[ii]),
        decreases m - i,
    {
        let mut row: Vec<G1> = Vec::new();
        let mut j: usize = 0;
        while j < n
            invariant
                j <= n,
                i < m,
                m == a@.len(),
                k == b@.len(),
                va == mat_fr(*a),
                vb == mat_g1(*b),
                target == mmul(va, vb, n as nat),
                wf(va, m as nat, k as nat),
                wf(vb, k as nat, n as nat),
                row@.len() == j,
                forall|jj: int|
                    0 <= jj < j ==> congruent(
                        g1_log(#[trigger] row@[jj]),
                        target[i as int][jj],
                    ),
            decreases n - j,
        {
            let ghost u = va[i as int];
            let ghost v = col(vb, j as int);
            let mut sum = G1::zero();
            let mut l: usize = 0;
            while l < k
                invariant
                    l <= k,
                    i < m,
                    j < n,
                    m == a@.len(),
                    k == b@.len(),
                    va == mat_fr(*a),
                    vb == mat_g1(*b),
                    u == va[i as int],
                    v == col(vb, j as int),
                    wf(va, m as nat, k as nat),
                    wf(vb, k as nat, n as nat),
                    congruent(g1_log(sum), dot(u.take(l as int), v.take(l as int))),
                decreases k - l,
            {
                proof {
                    assert(vb[l as int] == b@[l as int]@.map_values(|x: G1| g1_log(x)));
                    assert(va[i as int] == a@[i as int]@.map_values(|x: Fr| scalar_of(x)));
                }
                let t = b[l][j].mul(&a[i][l]);
                proof {
                    assert(u[l as int] == scalar_of(a@[i as int]@[l as int]));
                    assert(v[l as int] == g1_log(b@[l as int]@[j as int]));
                    lemma_reduce(v[l as int] * u[l as int]);
                    lemma_mul_is_commutative(v[l as int], u[l as int]);
                }
                let ghost old_sum_log = g1_log(sum);
                sum = sum.add(&t);
                proof {
                    lemma_reduce(old_sum_log + g1_log(t));
                    lemma_congruent_add(
                        old_sum_log,
                        dot(u.take(l as int), v.take(l as int)),
                        g1_log(t),
                        u[l as int] * v[l as int],
                    );
                    lemma_dot_take_step(u, v, l as int);
                }
                l += 1;
            }
            proof {
                assert(u.take(k as int) =~= u);
                assert(v.take(k as int) =~= v);
            }
            row.push(sum);
            j += 1;
        }
        let ghost prev = mat_g1(res);
        res.push(row);
        proof {
            let rv = row@.map_values(|x: G1| g1_log(x));
            assert forall|ii: int| 0 <= ii < i as int + 1 implies vcong(
                #[trigger] mat_g1(res)[ii],
                target[ii],
            ) by {
                if ii < i as int {
                    assert(mat_g1(res)[ii] =~= prev[ii]);
                    assert(vcong(prev[ii], target[ii]));
                } else {
                    assert(mat_g1(res)[ii] =~= rv);
                    assert forall|jj: int| 0 <= jj < n implies congruent(
                        #[trigger] rv[jj],
                        target[ii][jj],
                    ) by {
                        assert(rv[jj] == g1_log(row@[jj]));
                    }
                    assert(vcong(rv, target[ii]));
                }
            }
        }
        i += 1;
    }
    res
}

/// Multiplies a matrix of scalars (left) with a matrix of G2 points
/// (right); `n` is the column count of `b`.
pub(crate) fn smul_g2(a: &Vec<Vec<Fr>>, b: &Vec<Vec<G2>>, n: usize) -> (res: Vec<Vec<G2>>)
    requires
        wf(mat_fr(*a), a@.len() as nat, b@.len() as nat),
        wf(mat_g2(*b), b@.len() as nat, n as nat),
    ensures
        wf(mat_g2(res), a@.len() as nat, n as nat),
        mcong(mat_g2(res), mmul(mat_fr(*a), mat_g2(*b), n as nat)),
{
    let ghost va = mat_fr(*a);
    let ghost vb = mat_g2(*b);
    let ghost target = mmul(va, vb, n as nat);
    let m = a.len();
    let k = b.len();
    let mut res: Vec<Vec<G2>> = Vec::new();
    let mut i: usize = 0;
    while i < m
        invariant
            i <= m,
            m == a@.len(),
            k == b@.len(),
            va == mat_fr(*a),
            vb == mat_g2(*b),
            target == mmul(va, vb, n as nat),
            wf(va, m as nat, k as nat),
            wf(vb, k as nat, n as nat),
            res@.len() == i,
            forall|ii: int| 0 <= ii < i ==> vcong(#[trigger] mat_g2(res)[ii], target[ii]),
        decreases m - i,
    {
        let mut row: Vec<G2> = Vec::new();
        let mut j: usize = 0;
        while j < n
            invariant
                j <= n,
                i < m,
                m == a@.len(),
                k == b@.len(),
                va == mat_fr(*a),
                vb == mat_g2(*b),
                target == mmul(va, vb, n as nat),
                wf(va, m as nat, k as nat),
                wf(vb, k as nat, n as nat),
                row@.len() == j,
                forall|jj: int|
                    0 <= jj < j ==> congruent(
                        g2_log(#[trigger] row@[jj]),
                        target[i as int][jj],
                    ),
            decreases n - j,
        {
            let ghost u = va[i as int];
            let ghost v = col(vb, j as int);
            let mut sum = g2_zero();
            let mut l: usize = 0;
            while l < k
                invariant
                    l <= k,
                    i < m,
                    j < n,
                    m == a@.len(),
                    k == b@.len(),
                    va == mat_fr(*a),
                    vb == mat_g2(*b),
                    u == va[i as int],
                    v == col(vb, j as int),
                    wf(va, m as nat, k as nat),
                    wf(vb, k as nat, n as nat),
                    congruent(g2_log(sum), dot(u.take(l as int), v.take(l as int))),
                decreases k - l,
            {
                proof {
                    assert(vb[l as int] == b@[l as int]@.map_values(|x: G2| g2_log(x)));
                    assert(va[i as int] == a@[i as int]@.map_values(|x: Fr| scalar_of(x)));
                }
                let t = g2_mul(&b[l][j], &a[i][l]);
                proof {
                    assert(u[l as int] == scalar_of(a@[i as int]@[l as int]));
                    assert(v[l as int] == g2_log(b@[l as int]@[j as int]));
                    lemma_reduce(v[l as int] * u[l as int]);
                    lemma_mul_is_commutative(v[l as int], u[l as int]);
                }
                let ghost old_sum_log = g2_log(sum);
                sum = g2_add(&sum, &t);
                proof {
                    lemma_reduce(old_sum_log + g2_log(t));
                    lemma_congruent_add(
                        old_sum_log,
                        dot(u.take(l as int), v.take(l as int)),
                        g2_log(t),
                        u[l as int] * v[l as int],
                    );
                    lemma_dot_take_step(u, v, l as int);
                }
                l += 1;
            }
            proof {
                assert(u.take(k as int) =~= u);
                assert(v.take(k as int) =~= v);
            }
            row.push(sum);
            j += 1;
        }
        let ghost prev = mat_g2(res);
        res.push(row);
        proof {
            let rv = row@.map_values(|x: G2| g2_log(x));
            assert forall|ii: int| 0 <= ii < i as int + 1 implies vcong(
                #[trigger] mat_g2(res)[ii],
                target[ii],
            ) by {
                if ii < i as int {
                    assert(mat_g2(res)[ii] =~= prev[ii]);
                    assert(vcong(prev[ii], target[ii]));
                } else {
                    assert(mat_g2(res)[ii] =~= rv);
                    assert forall|jj: int| 0 <= jj < n implies congruent(
                        #[trigger] rv[jj],
                        target[ii][jj],
                    ) by {
                        assert(rv[jj] == g2_log(row@[jj]));
                    }
                    assert(vcong(rv, target[ii]));
                }
            }
        }
        i += 1;
    }
    res
}

/// Multiplies a matrix of G1 points (left) with a matrix of G2 points
/// (right), every cross term through the pairing; `n` is the column count
/// of `b`.
pub(crate) fn pairing_mul(a: &Vec<Vec<G1>>, b: &Vec<Vec<G2>>, n: usize) -> (res: Vec<Vec<Gt>>)
    requires
        wf(mat_g1(*a), a@.len() as nat, b@.len() as nat),
        wf(mat_g2(*b), b@.len() as nat, n as nat),
    ensures
        wf(mat_gt(res), a@.len() as nat, n as nat),
        mcong(mat_gt(res), mmul(mat_g1(*a), mat_g2(*b), n as nat)),
{
    let ghost va = mat_g1(*a);
    let ghost vb = mat_g2(*b);
    let ghost target = mmul(va, vb, n as nat);
    let m = a.len();
    let k = b.len();
    let mut res: Vec<Vec<Gt>> = Vec::new();
    let mut i: usize = 0;
    while i < m
        invariant
            i <= m,
            m == a@.len(),
            k == b@.len(),
            va == mat_g1(*a),
            vb == mat_g2(*b),
            target == mmul(va, vb, n as nat),
            wf(va, m as nat, k as nat),
            wf(vb, k as nat, n as nat),
            res@.len() == i,
            forall|ii: int| 0 <= ii < i ==> vcong(#[trigger] mat_gt(res)[ii], target[ii]),
        decreases m - i,
    {
        let mut row: Vec<Gt> = Vec::new();
        let mut j: usize = 0;
        while j < n
            invariant
                j <= n,
                i < m,
                m == a@.len(),
                k == b@.len(),
                va == mat_g1(*a),
                vb == mat_g2(*b),
                target == mmul(va, vb, n as nat),
                wf(va, m as nat, k as nat),
                wf(vb, k as nat, n as nat),
                row@.len() == j,
                forall|jj: int|
                    0 <= jj < j ==> congruent(
                        gt_log(#[trigger] row@[jj]),
                        target[i as int][jj],
                    ),
            decreases n - j,
        {
            let ghost u = va[i as int];
            let ghost v = col(vb, j as int);
            let mut sum = gt_zero();
            let mut l: usize = 0;
            while l < k
                invariant
                    l <= k,
                    i < m,
                    j < n,
                    m == a@.len(),
                    k == b@.len(),
                    va == mat_g1(*a),
                    vb == mat_g2(*b),
                    u == va[i as int],
                    v == col(vb, j as int),
                    wf(va, m as nat, k as nat),
                    wf(vb, k as nat, n as nat),
                    congruent(gt_log(sum), dot(u.take(l as int), v.take(l as int))),
                decreases k - l,
            {
                proof {
                    assert(vb[l as int] == b@[l as int]@.map_values(|x: G2| g2_log(x)));
                    assert(va[i as int] == a@[i as int]@.map_values(|x: G1| g1_log(x)));
                }
                let t = pairing(&a[i][l], &b[l][j]);
                proof {
                    assert(u[l as int] == g1_log(a@[i as int]@[l as int]));
                    assert(v[l as int] == g2_log(b@[l as int]@[j as int]));
                    lemma_reduce(u[l as int] * v[l as int]);
                }
                let ghost old_sum_log = gt_log(sum);
                sum = gt_add(&sum, &t);
                proof {
                    lemma_reduce(old_sum_log + gt_log(t));
                    lemma_congruent_add(
                        old_sum_log,
                        dot(u.take(l as int), v.take(l as int)),
                        gt_log(t),
                        u[l as int] * v[l as int],
                    );
                    lemma_dot_take_step(u, v, l as int);
                }
                l += 1;
            }
            proof {
                assert(u.take(k as int) =~= u);
                assert(v.take(k as int) =~= v);
            }
            row.push(sum);
            j += 1;
        }
        let ghost prev = mat_gt(res);
        res.push(row);
        proof {
            let rv = row@.map_values(|x: Gt| gt_log(x));
            assert forall|ii: int| 0 <= ii < i as int + 1 implies vcong(
                #[trigger] mat_gt(res)[ii],
                target[ii],
            ) by {
                if ii < i as int {
                    assert(mat_gt(res)[ii] =~= prev[ii]);
                    assert(vcong(prev[ii], target[ii]));
                } else {
                    assert(mat_gt(res)[ii] =~= rv);
                    assert forall|jj: int| 0 <= jj < n implies congruent(
                        #[trigger] rv[jj],
                        target[ii][jj],
                    ) by {
                        assert(rv[jj] == gt_log(row@[jj]));
                    }
                    assert(vcong(rv, target[ii]));
                }
            }
        }
        i += 1;
    }
    res
}

/// Entrywise sum of two matrices of G1 points.
pub(crate) fn mat_add_g1(a: &Vec<Vec<G1>>, b: &Vec<Vec<G1>>, m: usize, c: usize) -> (res: Vec<
    Vec<G1>,
>)
    requires
        wf(mat_g1(*a), m as nat, c as nat),
        wf(mat_g1(*b), m as nat, c as nat),
    ensures
        wf(mat_g1(res), m as nat, c as nat),
        mcong(mat_g1(res), madd(mat_g1(*a), mat_g1(*b))),
{
    let ghost va = mat_g1(*a);
    let ghost vb = mat_g1(*b);
    let ghost target = madd(va, vb);
    let mut res: Vec<Vec<G1>> = Vec::new();
    let mut i: usize = 0;
    while i < m
        invariant
            i <= m,
            m == a@.len(),
            m == b@.len(),
            va == mat_g1(*a),
            vb == mat_g1(*b),
            target == madd(va, vb),
            wf(va, m as nat, c as nat),
            wf(vb, m as nat, c as nat),
            res@.len() == i,
            forall|ii: int| 0 <= ii < i ==> vcong(#[trigger] mat_g1(res)[ii], target[ii]),
        decreases m - i,
    {
        let mut row: Vec<G1> = Vec::new();
        let mut j: usize = 0;
        while j < c
            invariant
                j <= c,
                i < m,
                m == a@.len(),
                m == b@.len(),
                va == mat_g1(*a),
                vb == mat_g1(*b),
                target == madd(va, vb),
                wf(va, m as nat, c as nat),
                wf(vb, m as nat, c as nat),
                row@.len() == j,
                forall|jj: int|
                    0 <= jj < j ==> congruent(
                        g1_log(#[trigger] row@[jj]),
                        target[i as int][jj],
                    ),
            decreases c - j,
        {
            proof {
                assert(va[i as int] == a@[i as int]@.map_values(|x: G1| g1_log(x)));
                assert(vb[i as int] == b@[i as int]@.map_values(|x: G1| g1_log(x)));
            }
            let t = a[i][j].add(&b[i][j]);
            proof {
                lemma_reduce(va[i as int][j as int] + vb[i as int][j as int]);
            }
            row.push(t);
            j += 1;
        }
        let ghost prev = mat_g1(res);
        res.push(row);
        proof {
            let rv = row@.map_values(|x: G1| g1_log(x));
            assert forall|ii: int| 0 <= ii < i as int + 1 implies vcong(
                #[trigger] mat_g1(res)[ii],
                target[ii],
            ) by {
                if ii < i as int {
                    assert(mat_g1(res)[ii] =~= prev[ii]);
                    assert(vcong(prev[ii], target[ii]));
                } else {
                    assert(mat_g1(res)[ii] =~= rv);
                    assert forall|jj: int| 0 <= jj < c implies congruent(
                        #[trigger] rv[jj],
                        target[ii][jj],
                    ) by {
                        assert(rv[jj] == g1_log(row@[jj]));
                    }
                    assert(vcong(rv, target[ii]));
                }
            }
        }
        i += 1;
    }
    res
}

/// Entrywise sum of two matrices of G2 points.
pub(crate) fn mat_add_g2(a: &Vec<Vec<G2>>, b: &Vec<Vec<G2>>, m: usize, c: usize) -> (res: Vec<
    Vec<G2>,
>)
    requires
        wf(mat_g2(*a), m as nat, c as nat),
        wf(mat_g2(*b), m as nat, c as nat),
    ensures
        wf(mat_g2(res), m as nat, c as nat),
        mcong(mat_g2(res), madd(mat_g2(*a), mat_g2(*b))),
{
    let ghost va = mat_g2(*a);
    let ghost vb = mat_g2(*b);
    let ghost target = madd(va, vb);
    let mut res: Vec<Vec<G2>> = Vec::new();
    let mut i: usize = 0;
    while i < m
        invariant
            i <= m,
            m == a@.len(),
            m == b@.len(),
            va == mat_g2(*a),
            vb == mat_g2(*b),
            target == madd(va, vb),
            wf(va, m as nat, c as nat),
            wf(vb, m as nat, c as nat),
            res@.len() == i,
            forall|ii: int| 0 <= ii < i ==> vcong(#[trigger] mat_g2(res)[ii], target[ii]),
        decreases m - i,
    {
        let mut row: Vec<G2> = Vec::new();
        let mut j: usize = 0;
        while j < c
            invariant
                j <= c,
                i < m,
                m == a@.len(),
                m == b@.len(),
                va == mat_g2(*a),
                vb == mat_g2(*b),
                target == madd(va, vb),
                wf(va, m as nat, c as nat),
                wf(vb, m as nat, c as nat),
                row@.len() == j,
                forall|jj: int|
                    0 <= jj < j ==> congruent(
                        g2_log(#[trigger] row@[jj]),
                        target[i as int][jj],
                    ),
            decreases c - j,
        {
            proof {
                assert(va[i as int] == a@[i as int]@.map_values(|x: G2| g2_log(x)));
                assert(vb[i as int] == b@[i as int]@.map_values(|x: G2| g2_log(x)));
            }
            let t = g2_add(&a[i][j], &b[i][j]);
            proof {
                lemma_reduce(va[i as int][j as int] + vb[i as int][j as int]);
            }
            row.push(t);
            j += 1;
        }
        let ghost prev = mat_g2(res);
        res.push(row);
        proof {
            let rv = row@.map_values(|x: G2| g2_log(x));
            assert forall|ii: int| 0 <= ii < i as int + 1 implies vcong(
                #[trigger] mat_g2(res)[ii],
                target[ii],
            ) by {
                if ii < i as int {
                    assert(mat_g2(res)[ii] =~= prev[ii]);
                    assert(vcong(prev[ii], target[ii]));
                } else {
                    assert(mat_g2(res)[ii] =~= rv);
                    assert forall|jj: int| 0 <= jj < c implies congruent(
                        #[trigger] rv[jj],
                        target[ii][jj],
                    ) by {
                        assert(rv[jj] == g2_log(row@[jj]));
                    }
                    assert(vcong(rv, target[ii]));
                }
            }
        }
        i += 1;
    }
    res
}

/// Entrywise difference of two matrices of G2 points.
pub(crate) fn mat_sub_g2(a: &Vec<Vec<G2>>, b: &Vec<Vec<G2>>, m: usize, c: usize) -> (res: Vec<
    Vec<G2>,
>)
    requires
        wf(mat_g2(*a), m as nat, c as nat),
        wf(mat_g2(*b), m as nat, c as nat),
    ensures
        wf(mat_g2(res), m as nat, c as nat),
        mcong(mat_g2(res), msub(mat_g2(*a), mat_g2(*b))),
{
    let ghost va = mat_g2(*a);
    let ghost vb = mat_g2(*b);
    let ghost target = msub(va, vb);
    let mut res: Vec<Vec<G2>> = Vec::new();
    let mut i: usize = 0;
    while i < m
        invariant
            i <= m,
            m == a@.len(),
            m == b@.len(),
            va == mat_g2(*a),
            vb == mat_g2(*b),
            target == msub(va, vb),
            wf(va, m as nat, c as nat),
            wf(vb, m as nat, c as nat),
            res@.len() == i,
            forall|ii: int| 0 <= ii < i ==> vcong(#[trigger] mat_g2(res)[ii], target[ii]),
        decreases m - i,
    {
        let mut row: Vec<G2> = Vec::new();
        let mut j: usize = 0;
        while j < c
            invariant
                j <= c,
                i < m,
                m == a@.len(),
                m == b@.len(),
                va == mat_g2(*a),
                vb == mat_g2(*b),
                target == msub(va, vb),
                wf(va, m as nat, c as nat),
                wf(vb, m as nat, c as nat),
                row@.len() == j,
                forall|jj: int|
                    0 <= jj < j ==> congruent(
                        g2_log(#[trigger] row@[jj]),
                        target[i as int][jj],
                    ),
            decreases c - j,
        {
            proof {
                assert(va[i as int] == a@[i as int]@.map_values(|x: G2| g2_log(x)));
                assert(vb[i as int] == b@[i as int]@.map_values(|x: G2| g2_log(x)));
            }
            let t = g2_add(&a[i][j], &g2_neg(&b[i][j]));
            proof {
                let q = group_order();
                let xx = va[i as int][j as int];
                let yy = vb[i as int][j as int];
                crate::modular::lemma_congruent_neg(yy);
                lemma_reduce(q - yy);
                lemma_congruent_add(xx, xx, (q - yy) % q, -yy);
                lemma_reduce(xx + (q - yy) % q);
            }
            row.push(t);
            j += 1;
        }
        let ghost prev = mat_g2(res);
        res.push(row);
        proof {
            let rv = row@.map_values(|x: G2| g2_log(x));
            assert forall|ii: int| 0 <= ii < i as int + 1 implies vcong(
                #[trigger] mat_g2(res)[ii],
                target[ii],
            ) by {
                if ii < i as int {
                    assert(mat_g2(res)[ii] =~= prev[ii]);
                    assert(vcong(prev[ii], target[ii]));
                } else {
                    assert(mat_g2(res)[ii] =~= rv);
                    assert forall|jj: int| 0 <= jj < c implies congruent(
                        #[trigger] rv[jj],
                        target[ii][jj],
                    ) by {
                        assert(rv[jj] == g2_log(row@[jj]));
                    }
                    assert(vcong(rv, target[ii]));
                }
            }
        }
        i += 1;
    }
    res
}

/// Entrywise sum of two matrices of target-group elements.
pub(crate) fn mat_add_gt(a: &Vec<Vec<Gt>>, b: &Vec<Vec<Gt>>, m: usize, c: usize) -> (res: Vec<
    Vec<Gt>,
>)
    requires
        wf(mat_gt(*a), m as nat, c as nat),
        wf(mat_gt(*b), m as nat, c as nat),
    ensures
        wf(mat_gt(res), m as nat, c as nat),
        mcong(mat_gt(res), madd(mat_gt(*a), mat_gt(*b))),
{
    let ghost va = mat_gt(*a);
    let ghost vb = mat_gt(*b);
    let ghost target = madd(va, vb);
    let mut res: Vec<Vec<Gt>> = Vec::new();
    let mut i: usize = 0;
    while i < m
        invariant
            i <= m,
            m == a@.len(),
            m == b@.len(),
            va == mat_gt(*a),
            vb == mat_gt(*b),
            target == madd(va, vb),
            wf(va, m as nat, c as nat),
            wf(vb, m as nat, c as nat),
            res@.len() == i,
            forall|ii: int| 0 <= ii < i ==> vcong(#[trigger] mat_gt(res)[ii], target[ii]),
        decreases m - i,
    {
        let mut row: Vec<Gt> = Vec::new();
        let mut j: usize = 0;
        while j < c
            invariant
                j <= c,
                i < m,
                m == a@.len(),
                m == b@.len(),
                va == mat_gt(*a),
                vb == mat_gt(*b),
                target == madd(va, vb),
                wf(va, m as nat, c as nat),
                wf(vb, m as nat, c as nat),
                row@.len() == j,
                forall|jj: int|
                    0 <= jj < j ==> congruent(
                        gt_log(#[trigger] row@[jj]),
                        target[i as int][jj],
                    ),
            decreases c - j,
        {
            proof {
                assert(va[i as int] == a@[i as int]@.map_values(|x: Gt| gt_log(x)));
                assert(vb[i as int] == b@[i as int]@.map_values(|x: Gt| gt_log(x)));
            }
            let t = gt_add(&a[i][j], &b[i][j]);
            proof {
                lemma_reduce(va[i as int][j as int] + vb[i as int][j as int]);
            }
            row.push(t);
            j += 1;
        }
        let ghost prev = mat_gt(res);
        res.push(row);
        proof {
            let rv = row@.map_values(|x: Gt| gt_log(x));
            assert forall|ii: int| 0 <= ii < i as int + 1 implies vcong(
                #[trigger] mat_gt(res)[ii],
                target[ii],
            ) by {
                if ii < i as int {
                    assert(mat_gt(res)[ii] =~= prev[ii]);
                    assert(vcong(prev[ii], target[ii]));
                } else {
                    assert(mat_gt(res)[ii] =~= rv);
                    assert forall|jj: int| 0 <= jj < c implies congruent(
                        #[trigger] rv[jj],
                        target[ii][jj],
                    ) by {
                        assert(rv[jj] == gt_log(row@[jj]));
                    }
                    assert(vcong(rv, target[ii]));
                }
            }
        }
        i += 1;
    }
    res
}

/// The transpose of a matrix of scalars of `c` columns.
pub(crate) fn transpose_fr(a: &Vec<Vec<Fr>>, c: usize) -> (res: Vec<Vec<Fr>>)
    requires
        wf(mat_fr(*a), a@.len() as nat, c as nat),
    ensures
        wf(mat_fr(res), c as nat, a@.len() as nat),
        mat_fr(res) == mtr(mat_fr(*a), c as nat),
{
    let ghost va = mat_fr(*a);
    let ghost target = mtr(va, c as nat);
    let m = a.len();
    let mut res: Vec<Vec<Fr>> = Vec::new();
    let mut j: usize = 0;
    while j < c
        invariant
            j <= c,
            m == a@.len(),
            va == mat_fr(*a),
            target == mtr(va, c as nat),
            wf(va, m as nat, c as nat),
            res@.len() == j,
            forall|jj: int| 0 <= jj < j ==> #[trigger] mat_fr(res)[jj] == target[jj],
        decreases c - j,
    {
        let mut row: Vec<Fr> = Vec::new();
        let mut i: usize = 0;
        while i < m
            invariant
                i <= m,
                j < c,
                m == a@.len(),
                va == mat_fr(*a),
                wf(va, m as nat, c as nat),
                row@.len() == i,
                forall|ii: int|
                    0 <= ii < i ==> scalar_of(#[trigger] row@[ii]) == va[ii][j as int],
            decreases m - i,
        {
            proof {
                assert(va[i as int] == a@[i as int]@.map_values(|x: Fr| scalar_of(x)));
            }
            row.push(a[i][j]);
            i += 1;
        }
        let ghost prev = mat_fr(res);
        res.push(row);
        proof {
            let rv = row@.map_values(|x: Fr| scalar_of(x));
            assert forall|jj: int| 0 <= jj < j as int + 1 implies #[trigger] mat_fr(res)[jj]
                == target[jj] by {
                if jj < j as int {
                    assert(mat_fr(res)[jj] =~= prev[jj]);
                } else {
                    assert(mat_fr(res)[jj] =~= rv);
                    assert(rv =~= target[jj]);
                }
            }
        }
        j += 1;
    }
    proof {
        assert(mat_fr(res) =~= target);
    }
    res
}

/// The transpose of a matrix of G1 points of `c` columns.
pub(crate) fn transpose_g1(a: &Vec<Vec<G1>>, c: usize) -> (res: Vec<Vec<G1>>)
    requires
        wf(mat_g1(*a), a@.len() as nat, c as nat),
    ensures
        wf(mat_g1(res), c as nat, a@.len() as nat),
        mat_g1(res) == mtr(mat_g1(*a), c as nat),
{
    let ghost va = mat_g1(*a);
    let ghost target = mtr(va, c as nat);
    let m = a.len();
    let mut res: Vec<Vec<G1>> = Vec::new();
    let mut j: usize = 0;
    while j < c
        invariant
            j <= c,
            m == a@.len(),
            va == mat_g1(*a),
            target == mtr(va, c as nat),
            wf(va, m as nat, c as nat),
            res@.len() == j,
            forall|jj: int| 0 <= jj < j ==> #[trigger] mat_g1(res)[jj] == target[jj],
        decreases c - j,
    {
        let mut row: Vec<G1> = Vec::new();
        let mut i: usize = 0;
        while i < m
            invariant
                i <= m,
                j < c,
                m == a@.len(),
                va == mat_g1(*a),
                wf(va, m as nat, c as nat),
                row@.len() == i,
                forall|ii: int| 0 <= ii < i ==> g1_log(#[trigger] row@[ii]) == va[ii][j as int],
            decreases m - i,
        {
            proof {
                assert(va[i as int] == a@[i as int]@.map_values(|x: G1| g1_log(x)));
            }
            row.push(a[i][j]);
            i += 1;
        }
        let ghost prev = mat_g1(res);
        res.push(row);
        proof {
            let rv = row@.map_values(|x: G1| g1_log(x));
            assert forall|jj: int| 0 <= jj < j as int + 1 implies #[trigger] mat_g1(res)[jj]
                == target[jj] by {
                if jj < j as int {
                    assert(mat_g1(res)[jj] =~= prev[jj]);
                } else {
                    assert(mat_g1(res)[jj] =~= rv);
                    assert(rv =~= target[jj]);
                }
            }
        }
        j += 1;
    }
    proof {
        assert(mat_g1(res) =~= target);
    }
    res
}

/// Entrywise equality of two matrices of target-group elements: exactly
/// entrywise congruence of the matrices of logarithms.
pub(crate) fn mat_eq_gt(a: &Vec<Vec<Gt>>, b: &Vec<Vec<Gt>>) -> (r: bool)
    ensures
        r == mcong(mat_gt(*a), mat_gt(*b)),
{
    let ghost va = mat_gt(*a);
    let ghost vb = mat_gt(*b);
    if a.len() != b.len() {
        return false;
    }
    let m = a.len();
    let mut i: usize = 0;
    while i < m
        invariant
            i <= m,
            m == a@.len(),
            m == b@.len(),
            va == mat_gt(*a),
            vb == mat_gt(*b),
            forall|ii: int| 0 <= ii < i ==> vcong(#[trigger] va[ii], vb[ii]),
        decreases m - i,
    {
        proof {
            assert(va[i as int] == a@[i as int]@.map_values(|x: Gt| gt_log(x)));
            assert(vb[i as int] == b@[i as int]@.map_values(|x: Gt| gt_log(x)));
        }
        if a[i].len() != b[i].len() {
            proof {
                assert(!vcong(va[i as int], vb[i as int]));
            }
            return false;
        }
        let c = a[i].len();
        let mut j: usize = 0;
        while j < c
            invariant
                j <= c,
                i < m,
                m == a@.len(),
                m == b@.len(),
                c == a@[i as int]@.len(),
                c == b@[i as int]@.len(),
                va == mat_gt(*a),
                vb == mat_gt(*b),
                forall|jj: int|
                    0 <= jj < j ==> congruent(
                        #[trigger] va[i as int][jj],
                        #[trigger] vb[i as int][jj],
                    ),
            decreases c - j,
        {
            proof {
                assert(va[i as int] == a@[i as int]@.map_values(|x: Gt| gt_log(x)));
                assert(vb[i as int] == b@[i as int]@.map_values(|x: Gt| gt_log(x)));
            }
            if !gt_eq(&a[i][j], &b[i][j]) {
                proof {
                    assert(!congruent(va[i as int][j as int], vb[i as int][j as int]));
                    assert(!vcong(va[i as int], vb[i as int]));
                }
                return false;
            }
            j += 1;
        }
        proof {
            assert(vcong(va[i as int], vb[i as int]));
        }
        i += 1;
    }
    true
}

/// A matrix of fresh uniformly random scalars of the given shape.
pub(crate) fn rand_fr_mat(rng: &mut Rng, rows: usize, cols: usize) -> (res: Vec<Vec<Fr>>)
    ensures
        wf(mat_fr(res), rows as nat, cols as nat),
{
    let mut res: Vec<Vec<Fr>> = Vec::new();
    let mut i: usize = 0;
    while i < rows
        invariant
            i <= rows,
            res@.len() == i,
            forall|ii: int| 0 <= ii < i ==> (#[trigger] mat_fr(res)[ii]).len() == cols as nat,
        decreases rows - i,
    {
        let mut row: Vec<Fr> = Vec::new();
        let mut j: usize = 0;
        while j < cols
            invariant
                j <= cols,
                row@.len() == j,
            decreases cols - j,
        {
            row.push(Fr::rand(rng));
            j += 1;
        }
        let ghost prev = mat_fr(res);
        res.push(row);
        proof {
            assert forall|ii: int| 0 <= ii < i as int + 1 implies (#[trigger] mat_fr(res)[ii]).len()
                == cols as nat by {
                if ii < i as int {
                    assert(mat_fr(res)[ii] =~= prev[ii]);
                } else {
                    assert(mat_fr(res)[ii] =~= row@.map_values(|x: Fr| scalar_of(x)));
                }
            }
        }
        i += 1;
    }
    res
}

} // verus!
