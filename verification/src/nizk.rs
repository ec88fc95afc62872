//! A Groth–Sahai style non-interactive argument for the multi-scalar
//! multiplication equation `Σ y_j·A_j + Σ b_i·X_i = target` on G1, with
//! public `A`, `b`, `target` and witnesses `Y` (scalars) and `X` (points).
//!
//! Commitments to the witnesses are matrix Pedersen commitments under a
//! common reference string; verification evaluates a bilinear equation over
//! the pairing; and an existing proof can be rerandomized without the
//! witnesses.  The contracts state every matrix over the discrete
//! logarithms, and completeness and rerandomization invariance are proved
//! below from the matrix algebra.

use vstd::prelude::*;

use crate::group::fr_mul;
use crate::group::g1_log;
use crate::group::g2_add;
use crate::group::g2_log;
use crate::group::g2_mul;
use crate::group::g2_rand;
use crate::group::group_order;
use crate::group::scalar_of;
use crate::group::Fr;
use crate::group::Rng;
use crate::group::G1;
use crate::group::G2;
use crate::group::Gt;
use crate::matrix::mat_add_g1;
use crate::matrix::mat_add_g2;
use crate::matrix::mat_add_gt;
use crate::matrix::mat_eq_gt;
use crate::matrix::mat_fr;
use crate::matrix::mat_g1;
use crate::matrix::mat_g2;
use crate::matrix::mat_gt;
use crate::matrix::mat_sub_g2;
use crate::matrix::pairing_mul;
use crate::matrix::rand_fr_mat;
use crate::matrix::smul_g1;
use crate::matrix::smul_g2;
use crate::matrix::transpose_fr;
use crate::matrix::transpose_g1;
use crate::matrix::vec_fr;
use crate::matrix::vec_g1;
use crate::matspec::col;
use crate::matspec::dot;
use crate::matspec::lemma_dot_comm;
use crate::matspec::lemma_dot_factor;
use crate::matspec::lemma_dot_single;
use crate::matspec::lemma_dot_zero_right;
use crate::matspec::lemma_mcong_cancel_add;
use crate::matspec::zvec;
use crate::matspec::lemma_madd_wf;
use crate::matspec::lemma_madd_zero;
use crate::matspec::lemma_mcong_madd;
use crate::matspec::lemma_mcong_msub;
use crate::matspec::lemma_mcong_mmul;
use crate::matspec::lemma_mcong_mtr;
use crate::matspec::lemma_mcong_refl;
use crate::matspec::lemma_mcong_replace;
use crate::matspec::lemma_mcong_sym;
use crate::matspec::lemma_mcong_trans;
use crate::matspec::lemma_mmul_assoc;
use crate::matspec::lemma_mmul_dist_add_left;
use crate::matspec::lemma_mmul_dist_add_right;
use crate::matspec::lemma_mmul_dist_sub_right;
use crate::matspec::lemma_mmul_wf;
use crate::matspec::lemma_mmul_zero_left;
use crate::matspec::lemma_mmul_zero_right;
use crate::matspec::lemma_msub_wf;
use crate::matspec::lemma_mtr_madd;
use crate::matspec::lemma_mtr_mmul;
use crate::matspec::lemma_mtr_mtr;
use crate::matspec::lemma_mtr_wf;
use crate::matspec::madd;
use crate::matspec::mcong;
use crate::matspec::mmul;
use crate::matspec::msub;
use crate::matspec::mtr;
use crate::matspec::vcong;
use crate::matspec::wf;
use crate::matspec::zmat;
use crate::modular::congruent;
use crate::modular::lemma_congruent_mul;
use crate::modular::lemma_reduce;
use vstd::arithmetic::mul::lemma_mul_basics;
use vstd::arithmetic::mul::lemma_mul_is_commutative;
use vstd::arithmetic::mul::lemma_mul_is_distributive_add_other_way;

verus! {

/// The value of a common reference string: the logarithms of its two
/// generators and of its two 2×2 commitment bases.
pub ghost struct CrsView {
    pub p1: int,
    pub p2: int,
    pub u: Seq<Seq<int>>,
    pub v: Seq<Seq<int>>,
}

pub open spec fn crs_wf(c: CrsView) -> bool {
    wf(c.u, 2, 2) && wf(c.v, 2, 2)
}

/// The value of a proof: the logarithms of its two commitment matrices and
/// its two proof terms.
pub ghost struct PrfView {
    pub c: Seq<Seq<int>>,
    pub d: Seq<Seq<int>>,
    pub pi: Seq<Seq<int>>,
    pub theta: Seq<Seq<int>>,
}

/// The shapes of a proof for `m` point witnesses and `n` scalar witnesses.
pub open spec fn prf_wf(p: PrfView, m: nat, n: nat) -> bool {
    wf(p.c, m, 2) && wf(p.d, n, 2) && wf(p.pi, 2, 2) && wf(p.theta, 1, 2)
}

/// Embeds a vector as a matrix with a zero first column.
pub open spec fn iota(v: Seq<int>) -> Seq<Seq<int>> {
    Seq::new(v.len(), |i: int| seq![0, v[i]])
}

/// A vector as a one-column matrix.
pub open spec fn colm(v: Seq<int>) -> Seq<Seq<int>> {
    Seq::new(v.len(), |i: int| seq![v[i]])
}

/// The first column of the G2 commitment basis, as a 1×2 row.
pub open spec fn v1row(c: CrsView) -> Seq<Seq<int>> {
    seq![seq![c.v[0][0], c.v[1][0]]]
}

/// The derived basis that embeds scalar witnesses into G2: the second
/// column of the basis, shifted by the generator in its second entry.
pub open spec fn wrow(c: CrsView) -> Seq<Seq<int>> {
    seq![seq![c.v[0][1], c.v[1][1] + c.p2]]
}

/// The embedding of the public scalar vector `b`: `b` as a column times the
/// derived basis row.
pub open spec fn bw(c: CrsView, b: Seq<int>) -> Seq<Seq<int>> {
    mmul(colm(b), wrow(c), 2)
}

/// Lifts the public target into the 2×2 pairing-output matrix space.
pub open spec fn lt_spec(c: CrsView, t: int) -> Seq<Seq<int>> {
    mmul(mtr(seq![seq![0, t]], 2), wrow(c), 2)
}

/// The left side of the verification equation:
/// `ι(A)ᵀ·D + Cᵀ·ι'(b)`, over the logarithms.
pub open spec fn lhs_spec(
    crs: CrsView,
    a: Seq<int>,
    b: Seq<int>,
    cm: Seq<Seq<int>>,
    d: Seq<Seq<int>>,
) -> Seq<Seq<int>> {
    madd(mmul(mtr(iota(a), 2), d, 2), mmul(mtr(cm, 2), bw(crs, b), 2))
}

/// The right side of the verification equation without the lifted target:
/// `Uᵀ·Pi + Θᵀ·v1`.
pub open spec fn rhs0_spec(crs: CrsView, pi: Seq<Seq<int>>, th: Seq<Seq<int>>) -> Seq<Seq<int>> {
    madd(mmul(mtr(crs.u, 2), pi, 2), mmul(mtr(th, 2), v1row(crs), 2))
}

/// The verification equation: both sides agree entrywise as elements of the
/// pairing target group.
pub open spec fn verify_spec(
    crs: CrsView,
    a: Seq<int>,
    b: Seq<int>,
    tgt: int,
    p: PrfView,
) -> bool {
    mcong(lhs_spec(crs, a, b, p.c, p.d), madd(lt_spec(crs, tgt), rhs0_spec(crs, p.pi, p.theta)))
}

/// What a rerandomization adds to both sides of the verification equation.
pub open spec fn delta_spec(
    crs: CrsView,
    a: Seq<int>,
    b: Seq<int>,
    r: Seq<Seq<int>>,
    s: Seq<Seq<int>>,
) -> Seq<Seq<int>> {
    madd(
        mmul(mtr(iota(a), 2), mmul(s, v1row(crs), 2), 2),
        mmul(mtr(crs.u, 2), mmul(mtr(r, 2), bw(crs, b), 2), 2),
    )
}

/// The statement being proved: `Σ y_j·A_j + Σ b_i·X_i = target` in the
/// group, over the logarithms.
pub open spec fn msm_rel(a: Seq<int>, y: Seq<int>, x: Seq<int>, b: Seq<int>, tgt: int) -> bool {
    congruent(dot(y, a) + dot(b, x), tgt)
}

/// Common reference string for the proof system: two generators and the
/// two 2×2 commitment bases derived from them.  The four blinding scalars
/// that build the bases are the commitment trapdoor; they exist only as
/// locals of [`Crs::rand`] and are never retained.
pub struct Crs {
    pub p1: G1,
    pub p2: G2,
    pub u00: G1,
    pub u01: G1,
    pub u10: G1,
    pub u11: G1,
    pub v00: G2,
    pub v01: G2,
    pub v10: G2,
    pub v11: G2,
}

impl View for Crs {
    type V = CrsView;

    open spec fn view(&self) -> CrsView {
        CrsView {
            p1: g1_log(self.p1),
            p2: g2_log(self.p2),
            u: seq![
                seq![g1_log(self.u00), g1_log(self.u01)],
                seq![g1_log(self.u10), g1_log(self.u11)],
            ],
            v: seq![
                seq![g2_log(self.v00), g2_log(self.v01)],
                seq![g2_log(self.v10), g2_log(self.v11)],
            ],
        }
    }
}

impl Crs {
    /// Samples a fresh common reference string: two generators and the
    /// bases `U = [[p1, t1·p1], [a1·p1, a1·t1·p1]]` and
    /// `V = [[p2, t2·p2], [a2·p2, a2·t2·p2]]` for four fresh blinding
    /// scalars, which are discarded when this call returns.
    pub fn rand(rng: &mut Rng) -> (crs: Crs)
        ensures
            crs_wf(crs@),
            crs@.u[0][0] == crs@.p1,
            crs@.v[0][0] == crs@.p2,
            exists|a1: int, t1: int|
                {
                    &&& #[trigger] congruent(crs@.u[0][1], crs@.p1 * t1)
                    &&& #[trigger] congruent(crs@.u[1][0], crs@.p1 * a1)
                    &&& congruent(crs@.u[1][1], crs@.p1 * (a1 * t1))
                },
            exists|a2: int, t2: int|
                {
                    &&& #[trigger] congruent(crs@.v[0][1], crs@.p2 * t2)
                    &&& #[trigger] congruent(crs@.v[1][0], crs@.p2 * a2)
                    &&& congruent(crs@.v[1][1], crs@.p2 * (a2 * t2))
                },
    {
        let p1 = G1::rand(rng);
        let p2 = g2_rand(rng);
        let a1 = Fr::rand(rng);
        let t1 = Fr::rand(rng);
        let a2 = Fr::rand(rng);
        let t2 = Fr::rand(rng);
        let u01 = p1.mul(&t1);
        let u10 = p1.mul(&a1);
        let u11 = p1.mul(&fr_mul(&a1, &t1));
        let v01 = g2_mul(&p2, &t2);
        let v10 = g2_mul(&p2, &a2);
        let v11 = g2_mul(&p2, &fr_mul(&a2, &t2));
        let crs = Crs { p1, p2, u00: p1, u01, u10, u11, v00: p2, v01, v10, v11 };
        proof {
            let pl = g1_log(p1);
            let ql = g2_log(p2);
            let va1 = scalar_of(a1);
            let vt1 = scalar_of(t1);
            let va2 = scalar_of(a2);
            let vt2 = scalar_of(t2);
            lemma_reduce(pl * vt1);
            lemma_reduce(pl * va1);
            lemma_reduce(va1 * vt1);
            lemma_reduce(pl * ((va1 * vt1) % group_order()));
            lemma_congruent_mul(pl, pl, (va1 * vt1) % group_order(), va1 * vt1);
            assert(congruent(crs@.u[0][1], crs@.p1 * vt1));
            assert(congruent(crs@.u[1][0], crs@.p1 * va1));
            assert(congruent(crs@.u[1][1], crs@.p1 * (va1 * vt1)));
            lemma_reduce(ql * vt2);
            lemma_reduce(ql * va2);
            lemma_reduce(va2 * vt2);
            lemma_reduce(ql * ((va2 * vt2) % group_order()));
            lemma_congruent_mul(ql, ql, (va2 * vt2) % group_order(), va2 * vt2);
            assert(congruent(crs@.v[0][1], crs@.p2 * vt2));
            assert(congruent(crs@.v[1][0], crs@.p2 * va2));
            assert(congruent(crs@.v[1][1], crs@.p2 * (va2 * vt2)));
        }
        crs
    }

    /// The G1 commitment basis `U`, as a 2×2 matrix.
    pub fn u(&self) -> (res: Vec<Vec<G1>>)
        ensures
            wf(mat_g1(res), 2, 2),
            mat_g1(res) == self@.u,
    {
        let res = vec![vec![self.u00, self.u01], vec![self.u10, self.u11]];
        proof {
            assert(mat_g1(res) =~~= self@.u);
        }
        res
    }

    /// The first column of the G2 basis, as a 1×2 row.
    pub fn v1(&self) -> (res: Vec<Vec<G2>>)
        ensures
            wf(mat_g2(res), 1, 2),
            mat_g2(res) == v1row(self@),
    {
        let res = vec![vec![self.v00, self.v10]];
        proof {
            assert(mat_g2(res) =~~= v1row(self@));
        }
        res
    }

    /// The derived basis row that embeds scalars into G2: the second column
    /// of `V`, with the generator added to its second entry.
    pub fn lz_basis(&self) -> (res: Vec<Vec<G2>>)
        ensures
            wf(mat_g2(res), 1, 2),
            mcong(mat_g2(res), wrow(self@)),
    {
        let w1 = g2_add(&self.v11, &self.p2);
        let res = vec![vec![self.v01, w1]];
        proof {
            lemma_reduce(self@.v[1][1] + self@.p2);
            let rv = mat_g2(res);
            assert(rv[0] =~= seq![g2_log(self.v01), g2_log(w1)]);
            assert(vcong(rv[0], wrow(self@)[0]));
            assert forall|i: int| 0 <= i < 1 implies vcong(#[trigger] rv[i], wrow(self@)[i]) by {
            }
        }
        res
    }
}

/// Embeds a vector of G1 points as a matrix `[0 | a]` with a zero first
/// column.
pub(crate) fn l1(a: &Vec<G1>) -> (res: Vec<Vec<G1>>)
    ensures
        wf(mat_g1(res), a@.len() as nat, 2),
        mat_g1(res) == iota(vec_g1(*a)),
{
    let ghost target = iota(vec_g1(*a));
    let m = a.len();
    let mut res: Vec<Vec<G1>> = Vec::new();
    let mut i: usize = 0;
    while i < m
        invariant
            i <= m,
            m == a@.len(),
            target == iota(vec_g1(*a)),
            res@.len() == i,
            forall|ii: int| 0 <= ii < i ==> #[trigger] mat_g1(res)[ii] == target[ii],
        decreases m - i,
    {
        let row = vec![G1::zero(), a[i]];
        let ghost prev = mat_g1(res);
        res.push(row);
        proof {
            let rv = row@.map_values(|x: G1| g1_log(x));
            assert forall|ii: int| 0 <= ii < i as int + 1 implies #[trigger] mat_g1(res)[ii]
                == target[ii] by {
                if ii < i as int {
                    assert(mat_g1(res)[ii] =~= prev[ii]);
                } else {
                    assert(mat_g1(res)[ii] =~= rv);
                    assert(vec_g1(*a)[ii] == g1_log(a@[ii]));
                    assert(rv =~= target[ii]);
                }
            }
        }
        i += 1;
    }
    proof {
        assert(mat_g1(res) =~= target);
    }
    res
}

/// Scales the rows of the basis row `w` by the entries of `z`: the
/// embedding `ι'(z) = z·w` of a scalar vector into G2.
pub(crate) fn lz2(w: &Vec<Vec<G2>>, z: &Vec<Fr>) -> (res: Vec<Vec<G2>>)
    requires
        wf(mat_g2(*w), 1, 2),
    ensures
        wf(mat_g2(res), z@.len() as nat, 2),
        mcong(mat_g2(res), mmul(colm(vec_fr(*z)), mat_g2(*w), 2)),
{
    let ghost vw = mat_g2(*w);
    let ghost vz = vec_fr(*z);
    let ghost target = mmul(colm(vz), vw, 2);
    let m = z.len();
    let mut res: Vec<Vec<G2>> = Vec::new();
    let mut i: usize = 0;
    while i < m
        invariant
            i <= m,
            m == z@.len(),
            vw == mat_g2(*w),
            vz == vec_fr(*z),
            wf(vw, 1, 2),
            target == mmul(colm(vz), vw, 2),
            res@.len() == i,
            forall|ii: int| 0 <= ii < i ==> vcong(#[trigger] mat_g2(res)[ii], target[ii]),
        decreases m - i,
    {
        proof {
            assert(vw[0] == w@[0]@.map_values(|x: G2| g2_log(x)));
        }
        let row = vec![g2_mul(&w[0][0], &z[i]), g2_mul(&w[0][1], &z[i])];
        let ghost prev = mat_g2(res);
        res.push(row);
        proof {
            let rv = row@.map_values(|x: G2| g2_log(x));
            let zi = vz[i as int];
            assert(zi == scalar_of(z@[i as int]));
            assert forall|jj: int| 0 <= jj < 2 implies congruent(
                #[trigger] rv[jj],
                target[i as int][jj],
            ) by {
                assert(colm(vz)[i as int] =~= seq![zi]);
                assert(col(vw, jj) =~= seq![vw[0][jj]]);
                lemma_dot_single(zi, vw[0][jj]);
                assert(target[i as int][jj] == zi * vw[0][jj]);
                assert(rv[jj] == g2_log(row@[jj]));
                lemma_reduce(vw[0][jj] * zi);
                lemma_mul_is_commutative(vw[0][jj], zi);
            }
            assert forall|ii: int| 0 <= ii < i as int + 1 implies vcong(
                #[trigger] mat_g2(res)[ii],
                target[ii],
            ) by {
                if ii < i as int {
                    assert(mat_g2(res)[ii] =~= prev[ii]);
                    assert(vcong(prev[ii], target[ii]));
                } else {
                    assert(mat_g2(res)[ii] =~= rv);
                    assert(vcong(rv, target[ii]));
                }
            }
        }
        i += 1;
    }
    res
}

/// Lifts the public target into the 2×2 pairing-output matrix space.
pub(crate) fn l_t(crs: &Crs, target: &G1) -> (res: Vec<Vec<Gt>>)
    ensures
        wf(mat_gt(res), 2, 2),
        mcong(mat_gt(res), lt_spec(crs@, g1_log(*target))),
{
    let ghost tl = g1_log(*target);
    let x = vec![vec![G1::zero(), *target]];
    proof {
        assert(mat_g1(x) =~~= seq![seq![0, tl]]);
    }
    let xt = transpose_g1(&x, 2);
    let w = crs.lz_basis();
    let res = pairing_mul(&xt, &w, 2);
    proof {
        lemma_mtr_wf(seq![seq![0, tl]], 1, 2);
        lemma_mcong_refl(mtr(seq![seq![0, tl]], 2));
        lemma_mcong_mmul(
            mtr(seq![seq![0, tl]], 2),
            mtr(seq![seq![0, tl]], 2),
            mat_g2(w),
            wrow(crs@),
            2,
            1,
            2,
        );
        lemma_mcong_trans(
            mat_gt(res),
            mmul(mtr(seq![seq![0, tl]], 2), mat_g2(w), 2),
            lt_spec(crs@, tl),
        );
    }
    res
}

// Shapes of the composite terms.

proof fn lemma_lhs_wf(crs: CrsView, a: Seq<int>, b: Seq<int>, cm: Seq<Seq<int>>, d: Seq<Seq<int>>)
    ensures
        wf(lhs_spec(crs, a, b, cm, d), 2, 2),
{
    lemma_mmul_wf(mtr(iota(a), 2), d, 2);
    lemma_madd_wf(mmul(mtr(iota(a), 2), d, 2), mmul(mtr(cm, 2), bw(crs, b), 2), 2, 2);
}

proof fn lemma_rhs0_wf(crs: CrsView, pi: Seq<Seq<int>>, th: Seq<Seq<int>>)
    ensures
        wf(rhs0_spec(crs, pi, th), 2, 2),
{
    lemma_mmul_wf(mtr(crs.u, 2), pi, 2);
    lemma_madd_wf(mmul(mtr(crs.u, 2), pi, 2), mmul(mtr(th, 2), v1row(crs), 2), 2, 2);
}

proof fn lemma_delta_wf(crs: CrsView, a: Seq<int>, b: Seq<int>, r: Seq<Seq<int>>, s: Seq<Seq<int>>)
    ensures
        wf(delta_spec(crs, a, b, r, s), 2, 2),
{
    lemma_mmul_wf(mtr(iota(a), 2), mmul(s, v1row(crs), 2), 2);
    lemma_madd_wf(
        mmul(mtr(iota(a), 2), mmul(s, v1row(crs), 2), 2),
        mmul(mtr(crs.u, 2), mmul(mtr(r, 2), bw(crs, b), 2), 2),
        2,
        2,
    );
}

proof fn lemma_lt_wf(crs: CrsView, t: int)
    ensures
        wf(lt_spec(crs, t), 2, 2),
{
    lemma_mmul_wf(mtr(seq![seq![0, t]], 2), wrow(crs), 2);
}

/// A column of an outer product `colm(v)·w` scales `v` by the basis entry.
proof fn lemma_outer_col(v: Seq<int>, w: Seq<Seq<int>>, j: int)
    requires
        wf(w, 1, 2),
        0 <= j < 2,
    ensures
        col(mmul(colm(v), w, 2), j) == Seq::new(v.len(), |k: int| v[k] * w[0][j]),
{
    assert forall|k: int| 0 <= k < v.len() implies col(mmul(colm(v), w, 2), j)[k] == v[k]
        * w[0][j] by {
        assert(colm(v)[k] =~= seq![v[k]]);
        assert(col(w, j) =~= seq![w[0][j]]);
        lemma_dot_single(v[k], w[0][j]);
    }
    assert(col(mmul(colm(v), w, 2), j) =~= Seq::new(v.len(), |k: int| v[k] * w[0][j]));
}

/// The verification left side respects congruence of the two commitment
/// matrices.
proof fn lemma_lhs_cong(
    crs: CrsView,
    a: Seq<int>,
    b: Seq<int>,
    c1: Seq<Seq<int>>,
    c2: Seq<Seq<int>>,
    d1: Seq<Seq<int>>,
    d2: Seq<Seq<int>>,
    m: nat,
    n: nat,
)
    requires
        mcong(c1, c2),
        mcong(d1, d2),
        wf(c1, m, 2),
        wf(d1, n, 2),
        a.len() == n,
        b.len() == m,
    ensures
        mcong(lhs_spec(crs, a, b, c1, d1), lhs_spec(crs, a, b, c2, d2)),
{
    lemma_mtr_wf(iota(a), n, 2);
    lemma_mcong_refl(mtr(iota(a), 2));
    lemma_mcong_mmul(mtr(iota(a), 2), mtr(iota(a), 2), d1, d2, 2, n, 2);
    lemma_mcong_mtr(c1, c2, m, 2);
    lemma_mtr_wf(c1, m, 2);
    assert(colm(b).len() == m);
    lemma_mmul_wf(colm(b), wrow(crs), 2);
    lemma_mcong_refl(bw(crs, b));
    lemma_mcong_mmul(mtr(c1, 2), mtr(c2, 2), bw(crs, b), bw(crs, b), 2, m, 2);
    lemma_mmul_wf(mtr(iota(a), 2), d1, 2);
    lemma_mmul_wf(mtr(c1, 2), bw(crs, b), 2);
    lemma_mcong_madd(
        mmul(mtr(iota(a), 2), d1, 2),
        mmul(mtr(iota(a), 2), d2, 2),
        mmul(mtr(c1, 2), bw(crs, b), 2),
        mmul(mtr(c2, 2), bw(crs, b), 2),
        2,
        2,
    );
}

/// The verification right side (without the lifted target) respects
/// congruence of the two proof terms.
proof fn lemma_rhs0_cong(
    crs: CrsView,
    pi1: Seq<Seq<int>>,
    pi2: Seq<Seq<int>>,
    th1: Seq<Seq<int>>,
    th2: Seq<Seq<int>>,
)
    requires
        crs_wf(crs),
        mcong(pi1, pi2),
        mcong(th1, th2),
        wf(pi1, 2, 2),
        wf(th1, 1, 2),
    ensures
        mcong(rhs0_spec(crs, pi1, th1), rhs0_spec(crs, pi2, th2)),
{
    lemma_mtr_wf(crs.u, 2, 2);
    lemma_mcong_refl(mtr(crs.u, 2));
    lemma_mcong_mmul(mtr(crs.u, 2), mtr(crs.u, 2), pi1, pi2, 2, 2, 2);
    lemma_mcong_mtr(th1, th2, 1, 2);
    lemma_mtr_wf(th1, 1, 2);
    assert(wf(v1row(crs), 1, 2));
    lemma_mcong_refl(v1row(crs));
    lemma_mcong_mmul(mtr(th1, 2), mtr(th2, 2), v1row(crs), v1row(crs), 2, 1, 2);
    lemma_mmul_wf(mtr(crs.u, 2), pi1, 2);
    lemma_mmul_wf(mtr(th1, 2), v1row(crs), 2);
    lemma_mcong_madd(
        mmul(mtr(crs.u, 2), pi1, 2),
        mmul(mtr(crs.u, 2), pi2, 2),
        mmul(mtr(th1, 2), v1row(crs), 2),
        mmul(mtr(th2, 2), v1row(crs), 2),
        2,
        2,
    );
}

/// Rerandomizing the two commitments adds the same matrix to the left side
/// of the verification equation.
proof fn lemma_lhs_update(
    crs: CrsView,
    a: Seq<int>,
    b: Seq<int>,
    c0: Seq<Seq<int>>,
    d0: Seq<Seq<int>>,
    r: Seq<Seq<int>>,
    s: Seq<Seq<int>>,
    m: nat,
    n: nat,
)
    requires
        crs_wf(crs),
        wf(c0, m, 2),
        wf(d0, n, 2),
        wf(r, m, 2),
        wf(s, n, 1),
        a.len() == n,
        b.len() == m,
    ensures
        lhs_spec(crs, a, b, madd(c0, mmul(r, crs.u, 2)), madd(d0, mmul(s, v1row(crs), 2))) == madd(
            lhs_spec(crs, a, b, c0, d0),
            delta_spec(crs, a, b, r, s),
        ),
{
    let iat = mtr(iota(a), 2);
    let sv = mmul(s, v1row(crs), 2);
    let ru = mmul(r, crs.u, 2);
    let bwm = bw(crs, b);
    lemma_mtr_wf(iota(a), n, 2);
    lemma_mmul_wf(s, v1row(crs), 2);
    lemma_mmul_wf(r, crs.u, 2);
    assert(colm(b).len() == m);
    lemma_mmul_wf(colm(b), wrow(crs), 2);
    lemma_mmul_dist_add_right(iat, d0, sv, 2, n, 2);
    lemma_mtr_madd(c0, ru, m, 2);
    lemma_mtr_mmul(r, crs.u, m, 2, 2);
    lemma_mtr_wf(c0, m, 2);
    lemma_mtr_wf(crs.u, 2, 2);
    lemma_mtr_wf(r, m, 2);
    lemma_mmul_wf(mtr(crs.u, 2), mtr(r, 2), m);
    lemma_mmul_dist_add_left(mtr(c0, 2), mmul(mtr(crs.u, 2), mtr(r, 2), m), bwm, 2, m, 2);
    lemma_mmul_assoc(mtr(crs.u, 2), mtr(r, 2), bwm, 2, 2, m, 2);
    let ta = mmul(iat, d0, 2);
    let ta2 = mmul(iat, sv, 2);
    let tb = mmul(mtr(c0, 2), bwm, 2);
    let tb2 = mmul(mtr(crs.u, 2), mmul(mtr(r, 2), bwm, 2), 2);
    lemma_mmul_wf(iat, d0, 2);
    lemma_mmul_wf(iat, sv, 2);
    lemma_mmul_wf(mtr(c0, 2), bwm, 2);
    lemma_mmul_wf(mtr(r, 2), bwm, 2);
    lemma_mmul_wf(mtr(crs.u, 2), mmul(mtr(r, 2), bwm, 2), 2);
    assert forall|i: int, j: int| 0 <= i < 2 && 0 <= j < 2 implies madd(
        madd(ta, ta2),
        madd(tb, tb2),
    )[i][j] == madd(madd(ta, tb), madd(ta2, tb2))[i][j] by {
        assert(madd(ta, ta2)[i][j] == ta[i][j] + ta2[i][j]);
        assert(madd(tb, tb2)[i][j] == tb[i][j] + tb2[i][j]);
        assert(madd(ta, tb)[i][j] == ta[i][j] + tb[i][j]);
        assert(madd(ta2, tb2)[i][j] == ta2[i][j] + tb2[i][j]);
    }
    assert(madd(madd(ta, ta2), madd(tb, tb2)) =~~= madd(madd(ta, tb), madd(ta2, tb2)));
}

/// Rerandomizing the two proof terms adds the same matrix to the right
/// side of the verification equation.
proof fn lemma_rhs0_update(
    crs: CrsView,
    a: Seq<int>,
    b: Seq<int>,
    pi0: Seq<Seq<int>>,
    th0: Seq<Seq<int>>,
    r: Seq<Seq<int>>,
    s: Seq<Seq<int>>,
    t: Seq<Seq<int>>,
    m: nat,
    n: nat,
)
    requires
        crs_wf(crs),
        wf(pi0, 2, 2),
        wf(th0, 1, 2),
        wf(r, m, 2),
        wf(s, n, 1),
        wf(t, 1, 2),
        a.len() == n,
        b.len() == m,
    ensures
        rhs0_spec(
            crs,
            madd(pi0, msub(mmul(mtr(r, 2), bw(crs, b), 2), mmul(mtr(t, 2), v1row(crs), 2))),
            madd(th0, madd(mmul(mtr(s, 1), iota(a), 2), mmul(t, crs.u, 2))),
        ) == madd(rhs0_spec(crs, pi0, th0), delta_spec(crs, a, b, r, s)),
{
    let ut = mtr(crs.u, 2);
    let bwm = bw(crs, b);
    let rtbw = mmul(mtr(r, 2), bwm, 2);
    let ttv = mmul(mtr(t, 2), v1row(crs), 2);
    let stia = mmul(mtr(s, 1), iota(a), 2);
    let tu = mmul(t, crs.u, 2);
    lemma_mtr_wf(crs.u, 2, 2);
    lemma_mtr_wf(r, m, 2);
    lemma_mtr_wf(t, 1, 2);
    lemma_mtr_wf(s, n, 1);
    assert(colm(b).len() == m);
    lemma_mmul_wf(colm(b), wrow(crs), 2);
    lemma_mmul_wf(mtr(r, 2), bwm, 2);
    lemma_mmul_wf(mtr(t, 2), v1row(crs), 2);
    lemma_mmul_wf(mtr(s, 1), iota(a), 2);
    lemma_mmul_wf(t, crs.u, 2);
    assert(wf(v1row(crs), 1, 2));
    lemma_msub_wf(rtbw, ttv, 2, 2);
    lemma_mmul_dist_add_right(ut, pi0, msub(rtbw, ttv), 2, 2, 2);
    lemma_mmul_dist_sub_right(ut, rtbw, ttv, 2, 2, 2);
    lemma_madd_wf(stia, tu, 1, 2);
    lemma_mtr_madd(th0, madd(stia, tu), 1, 2);
    lemma_mtr_madd(stia, tu, 1, 2);
    lemma_mtr_wf(th0, 1, 2);
    lemma_mtr_wf(stia, 1, 2);
    lemma_mtr_wf(tu, 1, 2);
    lemma_mtr_wf(madd(stia, tu), 1, 2);
    lemma_madd_wf(mtr(stia, 2), mtr(tu, 2), 2, 1);
    lemma_mmul_dist_add_left(mtr(th0, 2), madd(mtr(stia, 2), mtr(tu, 2)), v1row(crs), 2, 1, 2);
    lemma_mmul_dist_add_left(mtr(stia, 2), mtr(tu, 2), v1row(crs), 2, 1, 2);
    lemma_mtr_mmul(mtr(s, 1), iota(a), 1, n, 2);
    lemma_mtr_mtr(s, n, 1);
    lemma_mtr_wf(iota(a), n, 2);
    lemma_mmul_assoc(mtr(iota(a), 2), s, v1row(crs), 2, n, 1, 2);
    lemma_mtr_mmul(t, crs.u, 1, 2, 2);
    lemma_mmul_assoc(ut, mtr(t, 2), v1row(crs), 2, 2, 1, 2);
    let upi0 = mmul(ut, pi0, 2);
    let urtbw = mmul(ut, rtbw, 2);
    let uttv = mmul(ut, ttv, 2);
    let thv = mmul(mtr(th0, 2), v1row(crs), 2);
    let iasv = mmul(mtr(iota(a), 2), mmul(s, v1row(crs), 2), 2);
    lemma_mmul_wf(ut, pi0, 2);
    lemma_mmul_wf(ut, rtbw, 2);
    lemma_mmul_wf(ut, ttv, 2);
    lemma_mmul_wf(mtr(th0, 2), v1row(crs), 2);
    lemma_mmul_wf(s, v1row(crs), 2);
    lemma_mmul_wf(mtr(iota(a), 2), mmul(s, v1row(crs), 2), 2);
    lemma_msub_wf(urtbw, uttv, 2, 2);
    lemma_madd_wf(iasv, uttv, 2, 2);
    assert forall|i: int, j: int| 0 <= i < 2 && 0 <= j < 2 implies madd(
        madd(upi0, msub(urtbw, uttv)),
        madd(thv, madd(iasv, uttv)),
    )[i][j] == madd(madd(upi0, thv), madd(iasv, urtbw))[i][j] by {
        assert(madd(upi0, msub(urtbw, uttv))[i][j] == upi0[i][j] + (urtbw[i][j] - uttv[i][j]));
        assert(madd(thv, madd(iasv, uttv))[i][j] == thv[i][j] + (iasv[i][j] + uttv[i][j]));
        assert(madd(upi0, thv)[i][j] == upi0[i][j] + thv[i][j]);
        assert(madd(iasv, urtbw)[i][j] == iasv[i][j] + urtbw[i][j]);
    }
    assert(madd(madd(upi0, msub(urtbw, uttv)), madd(thv, madd(iasv, uttv))) =~~= madd(
        madd(upi0, thv),
        madd(iasv, urtbw),
    ));
}

/// For honestly committed witnesses that satisfy the statement, the left
/// side built from the bare embeddings equals the lifted target.
proof fn lemma_base_lhs(
    crs: CrsView,
    a: Seq<int>,
    y: Seq<int>,
    x: Seq<int>,
    b: Seq<int>,
    tgt: int,
    m: nat,
    n: nat,
)
    requires
        crs_wf(crs),
        a.len() == n,
        y.len() == n,
        x.len() == m,
        b.len() == m,
        msm_rel(a, y, x, b, tgt),
    ensures
        mcong(lhs_spec(crs, a, b, iota(x), mmul(colm(y), wrow(crs), 2)), lt_spec(crs, tgt)),
{
    let w = wrow(crs);
    assert(wf(w, 1, 2));
    let yw = mmul(colm(y), w, 2);
    let bwm = bw(crs, b);
    let t1m = mmul(mtr(iota(a), 2), yw, 2);
    let t3m = mmul(mtr(iota(x), 2), bwm, 2);
    let lt = lt_spec(crs, tgt);
    let lhs = lhs_spec(crs, a, b, iota(x), yw);
    assert(lhs == madd(t1m, t3m));
    assert(colm(y).len() == n);
    assert(colm(b).len() == m);
    lemma_mmul_wf(colm(y), w, 2);
    lemma_mmul_wf(colm(b), w, 2);
    lemma_mmul_wf(mtr(iota(a), 2), yw, 2);
    lemma_mmul_wf(mtr(iota(x), 2), bwm, 2);
    lemma_mmul_wf(mtr(seq![seq![0, tgt]], 2), w, 2);
    assert forall|i: int| 0 <= i < 2 implies vcong(#[trigger] madd(t1m, t3m)[i], lt[i]) by {
        assert forall|j: int| 0 <= j < 2 implies congruent(
            #[trigger] madd(t1m, t3m)[i][j],
            #[trigger] lt[i][j],
        ) by {
            let wj = w[0][j];
            let xi: int = if i == 0 { 0 } else { tgt };
            assert(mtr(seq![seq![0, tgt]], 2)[i] =~= seq![xi]);
            assert(col(w, j) =~= seq![wj]);
            lemma_dot_single(xi, wj);
            assert(mtr(iota(a), 2)[i] == col(iota(a), i));
            assert(mtr(iota(x), 2)[i] == col(iota(x), i));
            assert(madd(t1m, t3m)[i][j] == t1m[i][j] + t3m[i][j]);
            if i == 0 {
                assert(col(iota(a), 0) =~= zvec(n));
                assert(col(iota(x), 0) =~= zvec(m));
                lemma_dot_comm(zvec(n), col(yw, j));
                lemma_dot_zero_right(col(yw, j), n);
                lemma_dot_comm(zvec(m), col(bwm, j));
                lemma_dot_zero_right(col(bwm, j), m);
                lemma_mul_basics(wj);
                assert(lt[0][j] == 0 * wj);
                assert(madd(t1m, t3m)[0][j] == 0);
            } else {
                assert(col(iota(a), 1) =~= a);
                assert(col(iota(x), 1) =~= x);
                lemma_outer_col(y, w, j);
                lemma_outer_col(b, w, j);
                lemma_dot_factor(a, y, wj);
                lemma_dot_factor(x, b, wj);
                assert(t1m[1][j] == dot(a, y) * wj);
                assert(t3m[1][j] == dot(x, b) * wj);
                lemma_mul_is_distributive_add_other_way(wj, dot(a, y), dot(x, b));
                lemma_dot_comm(a, y);
                lemma_dot_comm(x, b);
                assert(madd(t1m, t3m)[1][j] == (dot(y, a) + dot(b, x)) * wj);
                assert(lt[1][j] == tgt * wj);
                lemma_congruent_mul(dot(y, a) + dot(b, x), tgt, wj, wj);
            }
        }
    }
    assert(mcong(madd(t1m, t3m), lt));
}

/// The right side built from zero proof terms is zero.
proof fn lemma_zero_rhs0(crs: CrsView)
    requires
        crs_wf(crs),
    ensures
        rhs0_spec(crs, zmat(2, 2), zmat(1, 2)) == zmat(2, 2),
{
    lemma_mtr_wf(crs.u, 2, 2);
    lemma_mmul_zero_right(mtr(crs.u, 2), 2, 2, 2);
    assert(mtr(zmat(1, 2), 2) =~~= zmat(2, 1));
    assert(wf(v1row(crs), 1, 2));
    lemma_mmul_zero_left(v1row(crs), 2, 1, 2);
    assert(madd(zmat(2, 2), zmat(2, 2)) =~~= zmat(2, 2));
}

/// Completeness: a proof assembled from commitments and proof terms with
/// the prescribed shapes, for witnesses that satisfy the statement,
/// verifies.  This holds of every choice of the prover's randomness.
pub proof fn lemma_completeness(
    crs: CrsView,
    a: Seq<int>,
    y: Seq<int>,
    x: Seq<int>,
    b: Seq<int>,
    r: Seq<Seq<int>>,
    s: Seq<Seq<int>>,
    t: Seq<Seq<int>>,
    p: PrfView,
    tgt: int,
)
    requires
        crs_wf(crs),
        a.len() == y.len(),
        x.len() == b.len(),
        wf(r, x.len(), 2),
        wf(s, a.len(), 1),
        wf(t, 1, 2),
        prf_wf(p, x.len(), a.len()),
        mcong(p.c, madd(iota(x), mmul(r, crs.u, 2))),
        mcong(p.d, madd(mmul(colm(y), wrow(crs), 2), mmul(s, v1row(crs), 2))),
        mcong(p.pi, msub(mmul(mtr(r, 2), bw(crs, b), 2), mmul(mtr(t, 2), v1row(crs), 2))),
        mcong(p.theta, madd(mmul(mtr(s, 1), iota(a), 2), mmul(t, crs.u, 2))),
        msm_rel(a, y, x, b, tgt),
    ensures
        verify_spec(crs, a, b, tgt, p),
{
    let m = x.len();
    let n = a.len();
    let yw = mmul(colm(y), wrow(crs), 2);
    let lt = lt_spec(crs, tgt);
    let delta = delta_spec(crs, a, b, r, s);
    let cf = madd(iota(x), mmul(r, crs.u, 2));
    let df = madd(yw, mmul(s, v1row(crs), 2));
    lemma_mmul_wf(r, crs.u, 2);
    assert(wf(iota(x), m, 2));
    lemma_madd_wf(iota(x), mmul(r, crs.u, 2), m, 2);
    assert(colm(y).len() == n);
    lemma_mmul_wf(colm(y), wrow(crs), 2);
    lemma_mmul_wf(s, v1row(crs), 2);
    lemma_madd_wf(yw, mmul(s, v1row(crs), 2), n, 2);
    lemma_lhs_cong(crs, a, b, p.c, cf, p.d, df, m, n);
    lemma_lhs_update(crs, a, b, iota(x), yw, r, s, m, n);
    lemma_base_lhs(crs, a, y, x, b, tgt, m, n);
    lemma_lt_wf(crs, tgt);
    lemma_delta_wf(crs, a, b, r, s);
    lemma_mcong_refl(delta);
    lemma_lhs_wf(crs, a, b, iota(x), yw);
    lemma_mcong_madd(lhs_spec(crs, a, b, iota(x), yw), lt, delta, delta, 2, 2);
    lemma_mcong_trans(
        lhs_spec(crs, a, b, p.c, p.d),
        lhs_spec(crs, a, b, cf, df),
        madd(lt, delta),
    );
    let pinc = msub(mmul(mtr(r, 2), bw(crs, b), 2), mmul(mtr(t, 2), v1row(crs), 2));
    let thinc = madd(mmul(mtr(s, 1), iota(a), 2), mmul(t, crs.u, 2));
    lemma_mtr_wf(r, m, 2);
    assert(colm(b).len() == m);
    lemma_mmul_wf(colm(b), wrow(crs), 2);
    lemma_mmul_wf(mtr(r, 2), bw(crs, b), 2);
    lemma_msub_wf(mmul(mtr(r, 2), bw(crs, b), 2), mmul(mtr(t, 2), v1row(crs), 2), 2, 2);
    lemma_mtr_wf(s, n, 1);
    lemma_mmul_wf(mtr(s, 1), iota(a), 2);
    lemma_madd_wf(mmul(mtr(s, 1), iota(a), 2), mmul(t, crs.u, 2), 1, 2);
    assert(wf(zmat(2, 2), 2, 2));
    assert(wf(zmat(1, 2), 1, 2));
    lemma_madd_zero(pinc, 2, 2);
    lemma_madd_zero(thinc, 1, 2);
    lemma_rhs0_cong(crs, p.pi, madd(zmat(2, 2), pinc), p.theta, madd(zmat(1, 2), thinc));
    lemma_rhs0_update(crs, a, b, zmat(2, 2), zmat(1, 2), r, s, t, m, n);
    lemma_zero_rhs0(crs);
    lemma_madd_zero(delta, 2, 2);
    lemma_rhs0_wf(crs, p.pi, p.theta);
    lemma_mcong_refl(lt);
    lemma_mcong_madd(lt, lt, rhs0_spec(crs, p.pi, p.theta), delta, 2, 2);
    lemma_mcong_sym(madd(lt, rhs0_spec(crs, p.pi, p.theta)), madd(lt, delta));
    lemma_mcong_trans(
        lhs_spec(crs, a, b, p.c, p.d),
        madd(lt, delta),
        madd(lt, rhs0_spec(crs, p.pi, p.theta)),
    );
}

/// Rerandomization invariance: replacing a proof's parts by freshly
/// blinded ones leaves the outcome of verification unchanged, for every
/// target and every choice of the blinding randomness.
pub proof fn lemma_randomize_preserves(
    crs: CrsView,
    a: Seq<int>,
    b: Seq<int>,
    tgt: int,
    oldp: PrfView,
    newp: PrfView,
    r: Seq<Seq<int>>,
    s: Seq<Seq<int>>,
    t: Seq<Seq<int>>,
)
    requires
        crs_wf(crs),
        prf_wf(oldp, b.len(), a.len()),
        prf_wf(newp, b.len(), a.len()),
        wf(r, b.len(), 2),
        wf(s, a.len(), 1),
        wf(t, 1, 2),
        mcong(newp.c, madd(oldp.c, mmul(r, crs.u, 2))),
        mcong(newp.d, madd(oldp.d, mmul(s, v1row(crs), 2))),
        mcong(
            newp.pi,
            madd(oldp.pi, msub(mmul(mtr(r, 2), bw(crs, b), 2), mmul(mtr(t, 2), v1row(crs), 2))),
        ),
        mcong(
            newp.theta,
            madd(oldp.theta, madd(mmul(mtr(s, 1), iota(a), 2), mmul(t, crs.u, 2))),
        ),
    ensures
        verify_spec(crs, a, b, tgt, newp) == verify_spec(crs, a, b, tgt, oldp),
{
    let m = b.len();
    let n = a.len();
    let lt = lt_spec(crs, tgt);
    let delta = delta_spec(crs, a, b, r, s);
    let cf = madd(oldp.c, mmul(r, crs.u, 2));
    let df = madd(oldp.d, mmul(s, v1row(crs), 2));
    let lhs_old = lhs_spec(crs, a, b, oldp.c, oldp.d);
    let lhs_new = lhs_spec(crs, a, b, newp.c, newp.d);
    let r0_old = rhs0_spec(crs, oldp.pi, oldp.theta);
    let r0_new = rhs0_spec(crs, newp.pi, newp.theta);
    lemma_mmul_wf(r, crs.u, 2);
    lemma_madd_wf(oldp.c, mmul(r, crs.u, 2), m, 2);
    lemma_mmul_wf(s, v1row(crs), 2);
    lemma_madd_wf(oldp.d, mmul(s, v1row(crs), 2), n, 2);
    lemma_lhs_cong(crs, a, b, newp.c, cf, newp.d, df, m, n);
    lemma_lhs_update(crs, a, b, oldp.c, oldp.d, r, s, m, n);
    let pinc = msub(mmul(mtr(r, 2), bw(crs, b), 2), mmul(mtr(t, 2), v1row(crs), 2));
    let thinc = madd(mmul(mtr(s, 1), iota(a), 2), mmul(t, crs.u, 2));
    lemma_mtr_wf(r, m, 2);
    assert(colm(b).len() == m);
    lemma_mmul_wf(colm(b), wrow(crs), 2);
    lemma_mmul_wf(mtr(r, 2), bw(crs, b), 2);
    lemma_msub_wf(mmul(mtr(r, 2), bw(crs, b), 2), mmul(mtr(t, 2), v1row(crs), 2), 2, 2);
    lemma_mtr_wf(s, n, 1);
    lemma_mmul_wf(mtr(s, 1), iota(a), 2);
    lemma_madd_wf(mmul(mtr(s, 1), iota(a), 2), mmul(t, crs.u, 2), 1, 2);
    lemma_madd_wf(oldp.pi, pinc, 2, 2);
    lemma_madd_wf(oldp.theta, thinc, 1, 2);
    lemma_rhs0_cong(crs, newp.pi, madd(oldp.pi, pinc), newp.theta, madd(oldp.theta, thinc));
    lemma_rhs0_update(crs, a, b, oldp.pi, oldp.theta, r, s, t, m, n);
    lemma_lt_wf(crs, tgt);
    lemma_rhs0_wf(crs, oldp.pi, oldp.theta);
    lemma_rhs0_wf(crs, newp.pi, newp.theta);
    lemma_delta_wf(crs, a, b, r, s);
    lemma_lhs_wf(crs, a, b, oldp.c, oldp.d);
    lemma_mcong_refl(lt);
    lemma_mcong_madd(lt, lt, r0_new, madd(r0_old, delta), 2, 2);
    assert forall|i: int, j: int| 0 <= i < 2 && 0 <= j < 2 implies madd(
        lt,
        madd(r0_old, delta),
    )[i][j] == madd(madd(lt, r0_old), delta)[i][j] by {
        assert(madd(r0_old, delta)[i][j] == r0_old[i][j] + delta[i][j]);
        assert(madd(lt, r0_old)[i][j] == lt[i][j] + r0_old[i][j]);
    }
    assert(madd(lt, madd(r0_old, delta)) =~~= madd(madd(lt, r0_old), delta));
    lemma_mcong_replace(lhs_new, madd(lhs_old, delta), madd(lt, r0_new), madd(madd(lt, r0_old), delta));
    lemma_mcong_refl(delta);
    lemma_mcong_cancel_add(lhs_old, madd(lt, r0_old), delta, delta, 2, 2);
}

/// What the verification equation pins down about the target: one proof
/// cannot verify against two targets unless they agree against both
/// entries of the derived basis.  With a basis entry that is invertible
/// modulo the (prime) group order, that forces the targets to agree.
pub proof fn lemma_verify_target_binding(
    crs: CrsView,
    a: Seq<int>,
    b: Seq<int>,
    t1: int,
    t2: int,
    p: PrfView,
)
    requires
        crs_wf(crs),
        prf_wf(p, b.len(), a.len()),
        verify_spec(crs, a, b, t1, p),
        verify_spec(crs, a, b, t2, p),
    ensures
        congruent(t1 * wrow(crs)[0][0], t2 * wrow(crs)[0][0]),
        congruent(t1 * wrow(crs)[0][1], t2 * wrow(crs)[0][1]),
{
    let w = wrow(crs);
    let lhs = lhs_spec(crs, a, b, p.c, p.d);
    let r0 = rhs0_spec(crs, p.pi, p.theta);
    let lt1 = lt_spec(crs, t1);
    let lt2 = lt_spec(crs, t2);
    lemma_lt_wf(crs, t1);
    lemma_lt_wf(crs, t2);
    lemma_rhs0_wf(crs, p.pi, p.theta);
    lemma_mcong_sym(lhs, madd(lt1, r0));
    lemma_mcong_trans(madd(lt1, r0), lhs, madd(lt2, r0));
    lemma_mcong_refl(r0);
    lemma_mcong_cancel_add(lt1, lt2, r0, r0, 2, 2);
    assert(wf(w, 1, 2));
    assert forall|j: int| 0 <= j < 2 implies congruent(#[trigger] (t1 * w[0][j]), t2 * w[0][j]) by {
        assert(mtr(seq![seq![0, t1]], 2)[1] =~= seq![t1]);
        assert(mtr(seq![seq![0, t2]], 2)[1] =~= seq![t2]);
        assert(col(w, j) =~= seq![w[0][j]]);
        lemma_dot_single(t1, w[0][j]);
        lemma_dot_single(t2, w[0][j]);
        assert(lt1[1][j] == t1 * w[0][j]);
        assert(lt2[1][j] == t2 * w[0][j]);
        assert(vcong(lt1[1], lt2[1]));
        assert(congruent(lt1[1][j], lt2[1][j]));
    }
}

/// A basis entry that is invertible modulo the group order — the order is
/// prime, so every entry that is not a multiple of it qualifies — makes
/// the binding exact: one proof cannot verify against two different
/// targets.  Verification with a tampered target therefore rejects.
pub proof fn lemma_verify_target_unique(
    crs: CrsView,
    a: Seq<int>,
    b: Seq<int>,
    t1: int,
    t2: int,
    p: PrfView,
    winv: int,
)
    requires
        crs_wf(crs),
        prf_wf(p, b.len(), a.len()),
        verify_spec(crs, a, b, t1, p),
        verify_spec(crs, a, b, t2, p),
        congruent(wrow(crs)[0][1] * winv, 1),
    ensures
        congruent(t1, t2),
{
    let w1 = wrow(crs)[0][1];
    lemma_verify_target_binding(crs, a, b, t1, t2, p);
    lemma_congruent_mul(t1 * w1, t2 * w1, winv, winv);
    assert((t1 * w1) * winv == t1 * (w1 * winv)) by (nonlinear_arith);
    assert((t2 * w1) * winv == t2 * (w1 * winv)) by (nonlinear_arith);
    lemma_congruent_mul(t1, t1, w1 * winv, 1);
    lemma_congruent_mul(t2, t2, w1 * winv, 1);
    lemma_mul_basics(t1);
    lemma_mul_basics(t2);
}

/// A proof for the multi-scalar multiplication statement: commitments `C`
/// to the point witnesses and `D` to the scalar witnesses, and the proof
/// terms `Pi` and `Theta`.
pub struct Proof {
    pub c: Vec<Vec<G1>>,
    pub d: Vec<Vec<G2>>,
    pub pi: Vec<Vec<G2>>,
    pub theta: Vec<Vec<G1>>,
}

impl View for Proof {
    type V = PrfView;

    open spec fn view(&self) -> PrfView {
        PrfView {
            c: mat_g1(self.c),
            d: mat_g2(self.d),
            pi: mat_g2(self.pi),
            theta: mat_g1(self.theta),
        }
    }
}

/// Commit to the vector of point witnesses: `C = ι(X) + R·U`.
pub(crate) fn commit_x(crs: &Crs, r: &Vec<Vec<Fr>>, x: &Vec<G1>) -> (res: Vec<Vec<G1>>)
    requires
        wf(mat_fr(*r), x@.len() as nat, 2),
    ensures
        wf(mat_g1(res), x@.len() as nat, 2),
        mcong(mat_g1(res), madd(iota(vec_g1(*x)), mmul(mat_fr(*r), crs@.u, 2))),
{
    let m = x.len();
    let lx = l1(x);
    let um = crs.u();
    let ru = smul_g1(r, &um, 2);
    let res = mat_add_g1(&lx, &ru, m, 2);
    proof {
        lemma_mcong_refl(iota(vec_g1(*x)));
        lemma_mmul_wf(mat_fr(*r), crs@.u, 2);
        assert(wf(iota(vec_g1(*x)), m as nat, 2));
        lemma_mcong_madd(
            mat_g1(lx),
            iota(vec_g1(*x)),
            mat_g1(ru),
            mmul(mat_fr(*r), crs@.u, 2),
            m as nat,
            2,
        );
        lemma_mcong_trans(
            mat_g1(res),
            madd(mat_g1(lx), mat_g1(ru)),
            madd(iota(vec_g1(*x)), mmul(mat_fr(*r), crs@.u, 2)),
        );
    }
    res
}

/// Commit to the vector of scalar witnesses: `D = ι'(Y) + S·v1`.
pub(crate) fn commit_y(crs: &Crs, s: &Vec<Vec<Fr>>, y: &Vec<Fr>) -> (res: Vec<Vec<G2>>)
    requires
        wf(mat_fr(*s), y@.len() as nat, 1),
    ensures
        wf(mat_g2(res), y@.len() as nat, 2),
        mcong(
            mat_g2(res),
            madd(mmul(colm(vec_fr(*y)), wrow(crs@), 2), mmul(mat_fr(*s), v1row(crs@), 2)),
        ),
{
    let n = y.len();
    let wb = crs.lz_basis();
    let ly = lz2(&wb, y);
    let v1m = crs.v1();
    let sv = smul_g2(s, &v1m, 2);
    let res = mat_add_g2(&ly, &sv, n, 2);
    proof {
        let vy = vec_fr(*y);
        assert(colm(vy).len() == n as nat);
        assert(wf(colm(vy), n as nat, 1));
        lemma_mcong_refl(colm(vy));
        lemma_mcong_mmul(colm(vy), colm(vy), mat_g2(wb), wrow(crs@), n as nat, 1, 2);
        lemma_mcong_trans(
            mat_g2(ly),
            mmul(colm(vy), mat_g2(wb), 2),
            mmul(colm(vy), wrow(crs@), 2),
        );
        lemma_mmul_wf(colm(vy), wrow(crs@), 2);
        lemma_mmul_wf(mat_fr(*s), v1row(crs@), 2);
        lemma_mcong_madd(
            mat_g2(ly),
            mmul(colm(vy), wrow(crs@), 2),
            mat_g2(sv),
            mmul(mat_fr(*s), v1row(crs@), 2),
            n as nat,
            2,
        );
        lemma_mcong_trans(
            mat_g2(res),
            madd(mat_g2(ly), mat_g2(sv)),
            madd(mmul(colm(vy), wrow(crs@), 2), mmul(mat_fr(*s), v1row(crs@), 2)),
        );
    }
    res
}

/// The two proof terms: `Pi = Rᵀ·ι'(b) - Tᵀ·v1` and
/// `Theta = Sᵀ·ι(A) + T·U`.
pub(crate) fn proof_parts(
    crs: &Crs,
    r: &Vec<Vec<Fr>>,
    s: &Vec<Vec<Fr>>,
    t: &Vec<Vec<Fr>>,
    a: &Vec<G1>,
    b: &Vec<Fr>,
) -> (res: (Vec<Vec<G2>>, Vec<Vec<G1>>))
    requires
        wf(mat_fr(*r), b@.len() as nat, 2),
        wf(mat_fr(*s), a@.len() as nat, 1),
        wf(mat_fr(*t), 1, 2),
    ensures
        wf(mat_g2(res.0), 2, 2),
        wf(mat_g1(res.1), 1, 2),
        mcong(
            mat_g2(res.0),
            msub(
                mmul(mtr(mat_fr(*r), 2), bw(crs@, vec_fr(*b)), 2),
                mmul(mtr(mat_fr(*t), 2), v1row(crs@), 2),
            ),
        ),
        mcong(
            mat_g1(res.1),
            madd(mmul(mtr(mat_fr(*s), 1), iota(vec_g1(*a)), 2), mmul(mat_fr(*t), crs@.u, 2)),
        ),
{
    let m = b.len();
    let n = a.len();
    let ghost vr = mat_fr(*r);
    let ghost vs = mat_fr(*s);
    let ghost vt = mat_fr(*t);
    let ghost vbf = vec_fr(*b);
    let ghost va = vec_g1(*a);
    let rt = transpose_fr(r, 2);
    let wb = crs.lz_basis();
    let lzb = lz2(&wb, b);
    proof {
        lemma_mtr_wf(vr, m as nat, 2);
    }
    let p1 = smul_g2(&rt, &lzb, 2);
    let tt = transpose_fr(t, 2);
    let v1m = crs.v1();
    proof {
        lemma_mtr_wf(vt, 1, 2);
    }
    let tv = smul_g2(&tt, &v1m, 2);
    let pi = mat_sub_g2(&p1, &tv, 2, 2);
    let st = transpose_fr(s, 1);
    let la = l1(a);
    proof {
        lemma_mtr_wf(vs, n as nat, 1);
    }
    let sa = smul_g1(&st, &la, 2);
    let um = crs.u();
    let tu = smul_g1(t, &um, 2);
    let theta = mat_add_g1(&sa, &tu, 1, 2);
    proof {
        assert(colm(vbf).len() == m as nat);
        assert(wf(colm(vbf), m as nat, 1));
        lemma_mcong_refl(colm(vbf));
        lemma_mcong_mmul(colm(vbf), colm(vbf), mat_g2(wb), wrow(crs@), m as nat, 1, 2);
        lemma_mcong_trans(mat_g2(lzb), mmul(colm(vbf), mat_g2(wb), 2), bw(crs@, vbf));
        lemma_mcong_refl(mtr(vr, 2));
        lemma_mmul_wf(colm(vbf), wrow(crs@), 2);
        lemma_mcong_mmul(mtr(vr, 2), mtr(vr, 2), mat_g2(lzb), bw(crs@, vbf), 2, m as nat, 2);
        lemma_mcong_trans(
            mat_g2(p1),
            mmul(mtr(vr, 2), mat_g2(lzb), 2),
            mmul(mtr(vr, 2), bw(crs@, vbf), 2),
        );
        lemma_mmul_wf(mtr(vr, 2), bw(crs@, vbf), 2);
        lemma_mmul_wf(mtr(vt, 2), v1row(crs@), 2);
        lemma_mcong_msub(
            mat_g2(p1),
            mmul(mtr(vr, 2), bw(crs@, vbf), 2),
            mat_g2(tv),
            mmul(mtr(vt, 2), v1row(crs@), 2),
            2,
            2,
        );
        lemma_mcong_trans(
            mat_g2(pi),
            msub(mat_g2(p1), mat_g2(tv)),
            msub(mmul(mtr(vr, 2), bw(crs@, vbf), 2), mmul(mtr(vt, 2), v1row(crs@), 2)),
        );
        lemma_mmul_wf(mtr(vs, 1), iota(va), 2);
        lemma_mmul_wf(vt, crs@.u, 2);
        lemma_mcong_madd(
            mat_g1(sa),
            mmul(mtr(vs, 1), iota(va), 2),
            mat_g1(tu),
            mmul(vt, crs@.u, 2),
            1,
            2,
        );
        lemma_mcong_trans(
            mat_g1(theta),
            madd(mat_g1(sa), mat_g1(tu)),
            madd(mmul(mtr(vs, 1), iota(va), 2), mmul(vt, crs@.u, 2)),
        );
    }
    (pi, theta)
}

/// Rerandomizes a commitment to point witnesses: `C' = C + R·U`.
pub(crate) fn randomize_com_x(crs: &Crs, r: &Vec<Vec<Fr>>, cm: &Vec<Vec<G1>>) -> (res: Vec<
    Vec<G1>,
>)
    requires
        wf(mat_fr(*r), cm@.len() as nat, 2),
        wf(mat_g1(*cm), cm@.len() as nat, 2),
    ensures
        wf(mat_g1(res), cm@.len() as nat, 2),
        mcong(mat_g1(res), madd(mat_g1(*cm), mmul(mat_fr(*r), crs@.u, 2))),
{
    let m = cm.len();
    let um = crs.u();
    let ru = smul_g1(r, &um, 2);
    let res = mat_add_g1(cm, &ru, m, 2);
    proof {
        lemma_mcong_refl(mat_g1(*cm));
        lemma_mmul_wf(mat_fr(*r), crs@.u, 2);
        lemma_mcong_madd(
            mat_g1(*cm),
            mat_g1(*cm),
            mat_g1(ru),
            mmul(mat_fr(*r), crs@.u, 2),
            m as nat,
            2,
        );
        lemma_mcong_trans(
            mat_g1(res),
            madd(mat_g1(*cm), mat_g1(ru)),
            madd(mat_g1(*cm), mmul(mat_fr(*r), crs@.u, 2)),
        );
    }
    res
}

/// Rerandomizes a commitment to scalar witnesses: `D' = D + S·v1`.
pub(crate) fn randomize_com_y(crs: &Crs, s: &Vec<Vec<Fr>>, d: &Vec<Vec<G2>>) -> (res: Vec<
    Vec<G2>,
>)
    requires
        wf(mat_fr(*s), d@.len() as nat, 1),
        wf(mat_g2(*d), d@.len() as nat, 2),
    ensures
        wf(mat_g2(res), d@.len() as nat, 2),
        mcong(mat_g2(res), madd(mat_g2(*d), mmul(mat_fr(*s), v1row(crs@), 2))),
{
    let n = d.len();
    let v1m = crs.v1();
    let sv = smul_g2(s, &v1m, 2);
    let res = mat_add_g2(d, &sv, n, 2);
    proof {
        lemma_mcong_refl(mat_g2(*d));
        lemma_mmul_wf(mat_fr(*s), v1row(crs@), 2);
        lemma_mcong_madd(
            mat_g2(*d),
            mat_g2(*d),
            mat_g2(sv),
            mmul(mat_fr(*s), v1row(crs@), 2),
            n as nat,
            2,
        );
        lemma_mcong_trans(
            mat_g2(res),
            madd(mat_g2(*d), mat_g2(sv)),
            madd(mat_g2(*d), mmul(mat_fr(*s), v1row(crs@), 2)),
        );
    }
    res
}

/// Create a proof for the multi-scalar multiplication equation
/// `Σ y_j·A_j + Σ b_i·X_i = target` on G1: whenever the witnesses satisfy
/// the statement, the returned proof verifies against it, whatever
/// randomness was drawn.
pub fn prove(rng: &mut Rng, crs: &Crs, a: Vec<G1>, y: Vec<Fr>, x: Vec<G1>, b: Vec<Fr>) -> (p:
    Proof)
    requires
        x@.len() == a@.len(),
        y@.len() == b@.len(),
        a@.len() == y@.len(),
    ensures
        prf_wf(p@, x@.len() as nat, y@.len() as nat),
        forall|tgt: int|
            #[trigger] msm_rel(vec_g1(a), vec_fr(y), vec_g1(x), vec_fr(b), tgt)
                ==> verify_spec(crs@, vec_g1(a), vec_fr(b), tgt, p@),
{
    let m = x.len();
    let n = y.len();
    let r = rand_fr_mat(rng, m, 2);
    let s = rand_fr_mat(rng, n, 1);
    let t = rand_fr_mat(rng, 1, 2);
    let c = commit_x(crs, &r, &x);
    let d = commit_y(crs, &s, &y);
    let (pi, theta) = proof_parts(crs, &r, &s, &t, &a, &b);
    let p = Proof { c, d, pi, theta };
    proof {
        assert(crs_wf(crs@));
        assert forall|tgt: int|
            #[trigger] msm_rel(vec_g1(a), vec_fr(y), vec_g1(x), vec_fr(b), tgt) implies verify_spec(
            crs@,
            vec_g1(a),
            vec_fr(b),
            tgt,
            p@,
        ) by {
            lemma_completeness(
                crs@,
                vec_g1(a),
                vec_fr(y),
                vec_g1(x),
                vec_fr(b),
                mat_fr(r),
                mat_fr(s),
                mat_fr(t),
                p@,
                tgt,
            );
        }
    }
    p
}

/// Verify a proof for the multi-scalar multiplication equation
/// `Σ y_j·A_j + Σ b_i·X_i = target` on G1.  Returns exactly whether the
/// bilinear verification equation holds; rejecting is an ordinary outcome,
/// not an error.
pub fn verify(crs: &Crs, a: Vec<G1>, b: Vec<Fr>, target: G1, prf: &Proof) -> (res: bool)
    requires
        prf_wf(prf@, b@.len() as nat, a@.len() as nat),
    ensures
        res == verify_spec(crs@, vec_g1(a), vec_fr(b), g1_log(target), prf@),
{
    let m = b.len();
    let n = a.len();
    let ghost va = vec_g1(a);
    let ghost vbf = vec_fr(b);
    let la = l1(&a);
    let lat = transpose_g1(&la, 2);
    let t1 = pairing_mul(&lat, &prf.d, 2);
    let ct = transpose_g1(&prf.c, 2);
    let wb = crs.lz_basis();
    let lzb = lz2(&wb, &b);
    let t2 = pairing_mul(&ct, &lzb, 2);
    let lhs = mat_add_gt(&t1, &t2, 2, 2);
    let lt = l_t(crs, &target);
    let um = crs.u();
    let ut = transpose_g1(&um, 2);
    let upi = pairing_mul(&ut, &prf.pi, 2);
    let tht = transpose_g1(&prf.theta, 2);
    let v1m = crs.v1();
    let thv = pairing_mul(&tht, &v1m, 2);
    let r0 = mat_add_gt(&upi, &thv, 2, 2);
    let rhs = mat_add_gt(&lt, &r0, 2, 2);
    let res = mat_eq_gt(&lhs, &rhs);
    proof {
        let tl = g1_log(target);
        // the left side
        assert(colm(vbf).len() == m as nat);
        assert(wf(colm(vbf), m as nat, 1));
        lemma_mcong_refl(colm(vbf));
        lemma_mcong_mmul(colm(vbf), colm(vbf), mat_g2(wb), wrow(crs@), m as nat, 1, 2);
        lemma_mcong_trans(mat_g2(lzb), mmul(colm(vbf), mat_g2(wb), 2), bw(crs@, vbf));
        lemma_mcong_refl(mtr(mat_g1(prf.c), 2));
        lemma_mtr_wf(mat_g1(prf.c), m as nat, 2);
        lemma_mmul_wf(colm(vbf), wrow(crs@), 2);
        lemma_mcong_mmul(
            mtr(mat_g1(prf.c), 2),
            mtr(mat_g1(prf.c), 2),
            mat_g2(lzb),
            bw(crs@, vbf),
            2,
            m as nat,
            2,
        );
        lemma_mcong_trans(
            mat_gt(t2),
            mmul(mtr(mat_g1(prf.c), 2), mat_g2(lzb), 2),
            mmul(mtr(mat_g1(prf.c), 2), bw(crs@, vbf), 2),
        );
        lemma_mmul_wf(mtr(iota(va), 2), mat_g2(prf.d), 2);
        lemma_mmul_wf(mtr(mat_g1(prf.c), 2), bw(crs@, vbf), 2);
        lemma_mcong_madd(
            mat_gt(t1),
            mmul(mtr(iota(va), 2), mat_g2(prf.d), 2),
            mat_gt(t2),
            mmul(mtr(mat_g1(prf.c), 2), bw(crs@, vbf), 2),
            2,
            2,
        );
        lemma_mcong_trans(
            mat_gt(lhs),
            madd(mat_gt(t1), mat_gt(t2)),
            lhs_spec(crs@, va, vbf, mat_g1(prf.c), mat_g2(prf.d)),
        );
        // the right side
        lemma_mmul_wf(mtr(crs@.u, 2), mat_g2(prf.pi), 2);
        lemma_mmul_wf(mtr(mat_g1(prf.theta), 2), v1row(crs@), 2);
        lemma_mcong_madd(
            mat_gt(upi),
            mmul(mtr(crs@.u, 2), mat_g2(prf.pi), 2),
            mat_gt(thv),
            mmul(mtr(mat_g1(prf.theta), 2), v1row(crs@), 2),
            2,
            2,
        );
        lemma_mcong_trans(
            mat_gt(r0),
            madd(mat_gt(upi), mat_gt(thv)),
            rhs0_spec(crs@, mat_g2(prf.pi), mat_g1(prf.theta)),
        );
        lemma_lt_wf(crs@, tl);
        lemma_rhs0_wf(crs@, mat_g2(prf.pi), mat_g1(prf.theta));
        lemma_mcong_madd(
            mat_gt(lt),
            lt_spec(crs@, tl),
            mat_gt(r0),
            rhs0_spec(crs@, mat_g2(prf.pi), mat_g1(prf.theta)),
            2,
            2,
        );
        lemma_mcong_trans(
            mat_gt(rhs),
            madd(mat_gt(lt), mat_gt(r0)),
            madd(lt_spec(crs@, tl), rhs0_spec(crs@, mat_g2(prf.pi), mat_g1(prf.theta))),
        );
        lemma_mcong_replace(
            mat_gt(lhs),
            lhs_spec(crs@, va, vbf, mat_g1(prf.c), mat_g2(prf.d)),
            mat_gt(rhs),
            madd(lt_spec(crs@, tl), rhs0_spec(crs@, mat_g2(prf.pi), mat_g1(prf.theta))),
        );
    }
    res
}

impl Proof {
    /// Rerandomize the proof using only the public inputs: the result
    /// verifies against exactly the targets the original verified against,
    /// whatever randomness was drawn.
    pub fn randomize(&self, rng: &mut Rng, crs: &Crs, a: Vec<G1>, b: Vec<Fr>) -> (res: Proof)
        requires
            prf_wf(self@, b@.len() as nat, a@.len() as nat),
        ensures
            prf_wf(res@, b@.len() as nat, a@.len() as nat),
            forall|tgt: int|
                #[trigger] verify_spec(crs@, vec_g1(a), vec_fr(b), tgt, res@) == verify_spec(
                    crs@,
                    vec_g1(a),
                    vec_fr(b),
                    tgt,
                    self@,
                ),
    {
        let m = self.c.len();
        let n = self.d.len();
        let r = rand_fr_mat(rng, m, 2);
        let s = rand_fr_mat(rng, n, 1);
        let t = rand_fr_mat(rng, 1, 2);
        let new_c = randomize_com_x(crs, &r, &self.c);
        let new_d = randomize_com_y(crs, &s, &self.d);
        let (pinc, thinc) = proof_parts(crs, &r, &s, &t, &a, &b);
        let new_pi = mat_add_g2(&self.pi, &pinc, 2, 2);
        let new_theta = mat_add_g1(&self.theta, &thinc, 1, 2);
        let res = Proof { c: new_c, d: new_d, pi: new_pi, theta: new_theta };
        proof {
            let vr = mat_fr(r);
            let vs = mat_fr(s);
            let vt = mat_fr(t);
            let va = vec_g1(a);
            let vbf = vec_fr(b);
            assert(crs_wf(crs@));
            let pincf = msub(
                mmul(mtr(vr, 2), bw(crs@, vbf), 2),
                mmul(mtr(vt, 2), v1row(crs@), 2),
            );
            let thincf = madd(mmul(mtr(vs, 1), iota(va), 2), mmul(vt, crs@.u, 2));
            lemma_mtr_wf(vr, m as nat, 2);
            assert(colm(vbf).len() == m as nat);
            lemma_mmul_wf(colm(vbf), wrow(crs@), 2);
            lemma_mmul_wf(mtr(vr, 2), bw(crs@, vbf), 2);
            lemma_msub_wf(
                mmul(mtr(vr, 2), bw(crs@, vbf), 2),
                mmul(mtr(vt, 2), v1row(crs@), 2),
                2,
                2,
            );
            lemma_mtr_wf(vs, n as nat, 1);
            lemma_mmul_wf(mtr(vs, 1), iota(va), 2);
            lemma_madd_wf(mmul(mtr(vs, 1), iota(va), 2), mmul(vt, crs@.u, 2), 1, 2);
            lemma_mcong_refl(mat_g2(self.pi));
            lemma_mcong_madd(mat_g2(self.pi), mat_g2(self.pi), mat_g2(pinc), pincf, 2, 2);
            lemma_mcong_trans(
                mat_g2(new_pi),
                madd(mat_g2(self.pi), mat_g2(pinc)),
                madd(mat_g2(self.pi), pincf),
            );
            lemma_mcong_refl(mat_g1(self.theta));
            lemma_mcong_madd(
                mat_g1(self.theta),
                mat_g1(self.theta),
                mat_g1(thinc),
                thincf,
                1,
                2,
            );
            lemma_mcong_trans(
                mat_g1(new_theta),
                madd(mat_g1(self.theta), mat_g1(thinc)),
                madd(mat_g1(self.theta), thincf),
            );
            assert forall|tgt: int|
                #[trigger] verify_spec(crs@, va, vbf, tgt, res@) == verify_spec(
                crs@,
                va,
                vbf,
                tgt,
                self@,
            ) by {
                lemma_randomize_preserves(crs@, va, vbf, tgt, self@, res@, vr, vs, vt);
            }
        }
        res
    }
}

} // verus!
