//! Trusted interface to the arkworks BLS12-381 arithmetic.
//!
//! Every value of the curve types that this library handles lies in the
//! prime-order subgroup of its curve (the arkworks constructors used here —
//! sampling, the group operations, and the subgroup-checking deserializers —
//! only produce such values).  Each such subgroup is cyclic of the order
//! `group_order()`, so a group element is determined by its discrete
//! logarithm with respect to a fixed generator.  The uninterpreted view
//! functions below (`scalar_of`, `g1_log`, `g2_log`, `gt_log`, ...) name that
//! logarithm, and the contracts of the wrappers state, over those views, the
//! group laws that the arkworks documentation gives: addition of points adds
//! logarithms, scalar multiplication multiplies them, and the pairing is
//! bilinear, all modulo the group order.
//!
//! The carrier types `Fr`, `G1`, `G1Affine`, `G2` and `Gt` hold the arkworks
//! values in fields that the verifier does not read: arkworks' generic curve
//! types cannot be declared to it directly, so each is wrapped in an opaque
//! struct of the library's own.

use vstd::prelude::*;

use ark_ec::pairing::Pairing;
use ark_ec::AffineRepr;
use ark_ec::CurveGroup;
use ark_serialize::CanonicalDeserialize;
use ark_serialize::CanonicalSerialize;
use ark_std::UniformRand;

verus! {

/// The order of the BLS12-381 scalar field, which is also the order of the
/// prime-order subgroups G1, G2 and of the image of the pairing in GT.
pub open spec fn group_order() -> int {
    // 52435875175126190479447740508185965837690552500527637822603658699938581184513,
    // that is 0x73eda753299d7d483339d80809a1d80553bda402fffe5bfeffffffff00000001,
    // written from its two 128-bit halves.
    (0x73eda753299d7d483339d80809a1d805 * 0x10000000000000000 * 0x10000000000000000
        + 0x53bda402fffe5bfeffffffff00000001) as int
}

/// An element of the scalar field of the curve.
#[verifier::external_body]
pub struct Fr {
    inner: ark_bls12_381::Fr,
}

/// A point of the group G1, in working (projective) representation.
#[verifier::external_body]
pub struct G1 {
    inner: ark_bls12_381::G1Projective,
}

/// A point of the group G1, in canonical (affine) representation.
#[verifier::external_body]
pub struct G1Affine {
    inner: ark_bls12_381::G1Affine,
}

/// A point of the group G2, in working (projective) representation.
#[verifier::external_body]
pub struct G2 {
    inner: ark_bls12_381::G2Projective,
}

/// An element of the target group GT of the pairing.
#[verifier::external_body]
pub struct Gt {
    inner: ark_ec::pairing::PairingOutput<ark_bls12_381::Bls12_381>,
}

/// The randomness source that every randomized operation takes.
pub type Rng = ark_std::rand::rngs::StdRng;

#[verifier::external_type_specification]
#[verifier::external_body]
pub struct ExStdRng(ark_std::rand::rngs::StdRng);

/// Raised by the byte decoders on malformed or truncated input.
#[derive(Clone, Copy, Debug, PartialEq, Eq)]
pub struct DecodeError;

// The views.  `scalar_of` is the value of a scalar as an integer in
// [0, group_order()); `g1_log`, `g1a_log`, `g2_log` and `gt_log` are the
// discrete logarithms of a point with respect to the fixed generators of the
// three groups.  `fr_scalar_of` and `g1_point_of` read the canonical
// fixed-size compressed encodings: applied to a byte string, they give the
// value that the string canonically encodes, or `None` where it encodes none.

pub uninterp spec fn scalar_of(s: Fr) -> int;

pub uninterp spec fn g1_log(p: G1) -> int;

pub uninterp spec fn g1a_log(p: G1Affine) -> int;

pub uninterp spec fn g2_log(p: G2) -> int;

pub uninterp spec fn gt_log(p: Gt) -> int;

pub uninterp spec fn fr_scalar_of(bytes: Seq<u8>) -> Option<int>;

pub uninterp spec fn g1_point_of(bytes: Seq<u8>) -> Option<int>;

impl Fr {
    /// Relies on ark_std's UniformRand: a scalar sampled from the given
    /// randomness source.  Nothing is promised of its value.
    #[verifier::external_body]
    pub fn rand(rng: &mut Rng) -> Fr {
        Fr { inner: ark_bls12_381::Fr::rand(rng) }
    }

    /// Relies on ark_ff's multiplicative identity of the scalar field.
    #[verifier::external_body]
    pub fn one() -> (r: Fr)
        ensures
            scalar_of(r) == 1,
    {
        Fr { inner: <ark_bls12_381::Fr as ark_std::One>::one() }
    }
}

/// Relies on ark_ff's multiplication in the scalar field: the product of two
/// scalars is the product of their values, reduced modulo the field's order.
#[verifier::external_body]
pub(crate) fn fr_mul(a: &Fr, b: &Fr) -> (r: Fr)
    ensures
        scalar_of(r) == (scalar_of(*a) * scalar_of(*b)) % group_order(),
{
    Fr { inner: a.inner * b.inner }
}

/// Relies on ark_ff's negation in the scalar field.
#[verifier::external_body]
pub(crate) fn fr_neg(a: &Fr) -> (r: Fr)
    ensures
        scalar_of(r) == (group_order() - scalar_of(*a)) % group_order(),
{
    Fr { inner: -a.inner }
}

/// Relies on ark_serialize's compressed encoding of a scalar: 32 bytes that
/// canonically encode its value.
#[verifier::external_body]
pub(crate) fn fr_ser(a: &Fr) -> (r: Vec<u8>)
    ensures
        r@.len() == 32,
        fr_scalar_of(r@) == Some(scalar_of(*a) % group_order()),
{
    let mut bytes = Vec::new();
    a.inner.serialize_compressed(&mut bytes).unwrap();
    bytes
}

/// Relies on ark_serialize's compressed decoding of a scalar: it reads 32
/// bytes and succeeds exactly when they canonically encode a field value.
#[verifier::external_body]
pub(crate) fn fr_deser(b: &[u8]) -> (r: Result<Fr, DecodeError>)
    ensures
        r is Ok <==> (b@.len() >= 32 && fr_scalar_of(b@.subrange(0, 32)) is Some),
        r matches Ok(s) ==> {
            &&& fr_scalar_of(b@.subrange(0, 32)) == Some(scalar_of(s))
            &&& 0 <= scalar_of(s) < group_order()
        },
{
    match ark_bls12_381::Fr::deserialize_compressed(b) {
        Ok(s) => Ok(Fr { inner: s }),
        Err(_) => Err(DecodeError),
    }
}

impl G1 {
    /// Relies on ark_std's UniformRand: a point of G1 sampled from the given
    /// randomness source.  Nothing is promised of its value.
    #[verifier::external_body]
    pub fn rand(rng: &mut Rng) -> G1 {
        G1 { inner: ark_bls12_381::G1Projective::rand(rng) }
    }

    /// Relies on ark_ec's additive identity of G1.
    #[verifier::external_body]
    pub fn zero() -> (r: G1)
        ensures
            g1_log(r) == 0,
    {
        G1 { inner: <ark_bls12_381::G1Projective as ark_std::Zero>::zero() }
    }

    /// Relies on ark_ec's point addition on G1: it adds discrete logarithms.
    #[verifier::external_body]
    pub fn add(&self, other: &G1) -> (r: G1)
        ensures
            g1_log(r) == (g1_log(*self) + g1_log(*other)) % group_order(),
    {
        G1 { inner: self.inner + other.inner }
    }

    /// Relies on ark_ec's scalar multiplication on G1: it multiplies the
    /// discrete logarithm by the scalar.
    #[verifier::external_body]
    pub fn mul(&self, s: &Fr) -> (r: G1)
        ensures
            g1_log(r) == (g1_log(*self) * scalar_of(*s)) % group_order(),
    {
        G1 { inner: self.inner * s.inner }
    }

    /// Relies on ark_ec's conversion of a G1 point to its canonical affine
    /// representation, which is the same group element.
    #[verifier::external_body]
    pub fn into_affine(&self) -> (r: G1Affine)
        ensures
            g1a_log(r) == g1_log(*self) % group_order(),
    {
        G1Affine { inner: self.inner.into_affine() }
    }
}

impl G1Affine {
    /// Relies on ark_std's UniformRand: a point of G1 sampled from the given
    /// randomness source.  Nothing is promised of its value.
    #[verifier::external_body]
    pub fn rand(rng: &mut Rng) -> G1Affine {
        G1Affine { inner: ark_bls12_381::G1Affine::rand(rng) }
    }

    /// Relies on ark_ec's conversion of an affine G1 point to the working
    /// representation, which is the same group element.
    #[verifier::external_body]
    pub fn into_group(&self) -> (r: G1)
        ensures
            g1_log(r) == g1a_log(*self) % group_order(),
    {
        G1 { inner: self.inner.into_group() }
    }
}

/// Relies on ark_serialize's compressed encoding of an affine G1 point:
/// 48 bytes that canonically encode the point.
#[verifier::external_body]
pub(crate) fn g1a_ser(a: &G1Affine) -> (r: Vec<u8>)
    ensures
        r@.len() == 48,
        g1_point_of(r@) == Some(g1a_log(*a) % group_order()),
{
    let mut bytes = Vec::new();
    a.inner.serialize_compressed(&mut bytes).unwrap();
    bytes
}

/// Relies on ark_serialize's compressed decoding of an affine G1 point: it
/// reads 48 bytes and succeeds exactly when they canonically encode a point
/// of the prime-order subgroup.
#[verifier::external_body]
pub(crate) fn g1a_deser(b: &[u8]) -> (r: Result<G1Affine, DecodeError>)
    ensures
        r is Ok <==> (b@.len() >= 48 && g1_point_of(b@.subrange(0, 48)) is Some),
        r matches Ok(p) ==> {
            &&& g1_point_of(b@.subrange(0, 48)) == Some(g1a_log(p))
            &&& 0 <= g1a_log(p) < group_order()
        },
{
    match ark_bls12_381::G1Affine::deserialize_compressed(b) {
        Ok(p) => Ok(G1Affine { inner: p }),
        Err(_) => Err(DecodeError),
    }
}

// G2 operations.

/// Relies on ark_std's UniformRand: a point of G2 sampled from the given
/// randomness source.  Nothing is promised of its value.
#[verifier::external_body]
pub(crate) fn g2_rand(rng: &mut Rng) -> G2 {
    G2 { inner: ark_bls12_381::G2Projective::rand(rng) }
}

/// Relies on ark_ec's additive identity of G2.
#[verifier::external_body]
pub(crate) fn g2_zero() -> (r: G2)
    ensures
        g2_log(r) == 0,
{
    G2 { inner: <ark_bls12_381::G2Projective as ark_std::Zero>::zero() }
}

/// Relies on ark_ec's point addition on G2: it adds discrete logarithms.
#[verifier::external_body]
pub(crate) fn g2_add(a: &G2, b: &G2) -> (r: G2)
    ensures
        g2_log(r) == (g2_log(*a) + g2_log(*b)) % group_order(),
{
    G2 { inner: a.inner + b.inner }
}

/// Relies on ark_ec's point negation on G2.
#[verifier::external_body]
pub(crate) fn g2_neg(a: &G2) -> (r: G2)
    ensures
        g2_log(r) == (group_order() - g2_log(*a)) % group_order(),
{
    G2 { inner: -a.inner }
}

/// Relies on ark_ec's scalar multiplication on G2: it multiplies the
/// discrete logarithm by the scalar.
#[verifier::external_body]
pub(crate) fn g2_mul(p: &G2, s: &Fr) -> (r: G2)
    ensures
        g2_log(r) == (g2_log(*p) * scalar_of(*s)) % group_order(),
{
    G2 { inner: p.inner * s.inner }
}

// The pairing and its target group.

/// Relies on ark_ec's bilinear pairing of BLS12-381: the logarithm of
/// `e(a, b)` with respect to `e(P1, P2)`, for the generators `P1`, `P2`
/// fixing `g1_log` and `g2_log`, is the product of the logarithms of the
/// arguments.
#[verifier::external_body]
pub(crate) fn pairing(a: &G1, b: &G2) -> (r: Gt)
    ensures
        gt_log(r) == (g1_log(*a) * g2_log(*b)) % group_order(),
{
    Gt { inner: ark_bls12_381::Bls12_381::pairing(a.inner, b.inner) }
}

/// Relies on ark_ec's group operation of the pairing target group (written
/// additively): it adds discrete logarithms.
#[verifier::external_body]
pub(crate) fn gt_add(a: &Gt, b: &Gt) -> (r: Gt)
    ensures
        gt_log(r) == (gt_log(*a) + gt_log(*b)) % group_order(),
{
    Gt { inner: a.inner + b.inner }
}

/// Relies on ark_ec's identity element of the pairing target group.
#[verifier::external_body]
pub(crate) fn gt_zero() -> (r: Gt)
    ensures
        gt_log(r) == 0,
{
    Gt { inner: <ark_ec::pairing::PairingOutput<ark_bls12_381::Bls12_381> as ark_std::Zero>::zero() }
}

/// Relies on ark_ec's equality of elements of the pairing target group:
/// two elements are equal exactly when their discrete logarithms agree.
#[verifier::external_body]
pub(crate) fn gt_eq(a: &Gt, b: &Gt) -> (r: bool)
    ensures
        r == (gt_log(*a) % group_order() == gt_log(*b) % group_order()),
{
    a.inner == b.inner
}

// Copies and equality of the carrier types.  A carrier is a plain wrapper
// around one arkworks value, so a clone is the same value, and two carriers
// are equal exactly when the wrapped values are; for subgroup values that is
// exactly when their views agree, since an element of a cyclic group is
// determined by its discrete logarithm.

impl Clone for Fr {
    /// Relies on the bitwise copy of an arkworks scalar.
    #[verifier::external_body]
    fn clone(&self) -> (r: Fr)
        ensures
            r == *self,
    {
        Fr { inner: self.inner }
    }
}

impl Copy for Fr {

}

impl PartialEq for Fr {
    /// Relies on ark_ff's equality of scalars.
    #[verifier::external_body]
    fn eq(&self, other: &Fr) -> bool {
        self.inner == other.inner
    }
}


impl Clone for G1 {
    /// Relies on the bitwise copy of an arkworks point.
    #[verifier::external_body]
    fn clone(&self) -> (r: G1)
        ensures
            r == *self,
    {
        G1 { inner: self.inner }
    }
}

impl Copy for G1 {

}

impl PartialEq for G1 {
    /// Relies on ark_ec's equality of G1 points.
    #[verifier::external_body]
    fn eq(&self, other: &G1) -> bool {
        self.inner == other.inner
    }
}


impl Clone for G1Affine {
    /// Relies on the bitwise copy of an arkworks point.
    #[verifier::external_body]
    fn clone(&self) -> (r: G1Affine)
        ensures
            r == *self,
    {
        G1Affine { inner: self.inner }
    }
}

impl Copy for G1Affine {

}

impl PartialEq for G1Affine {
    /// Relies on ark_ec's equality of affine G1 points.
    #[verifier::external_body]
    fn eq(&self, other: &G1Affine) -> bool {
        self.inner == other.inner
    }
}


impl Clone for G2 {
    /// Relies on the bitwise copy of an arkworks point.
    #[verifier::external_body]
    fn clone(&self) -> (r: G2)
        ensures
            r == *self,
    {
        G2 { inner: self.inner }
    }
}

impl Copy for G2 {

}

impl PartialEq for G2 {
    /// Relies on ark_ec's equality of G2 points.
    #[verifier::external_body]
    fn eq(&self, other: &G2) -> bool {
        self.inner == other.inner
    }
}


impl Clone for Gt {
    /// Relies on the bitwise copy of an arkworks pairing output.
    #[verifier::external_body]
    fn clone(&self) -> (r: Gt)
        ensures
            r == *self,
    {
        Gt { inner: self.inner }
    }
}

impl Copy for Gt {

}

impl PartialEq for Gt {
    /// Relies on ark_ec's equality of elements of the pairing target group.
    #[verifier::external_body]
    fn eq(&self, other: &Gt) -> bool {
        self.inner == other.inner
    }
}


} // verus!
