//! The ciphertext of the encryption scheme and its homomorphic addition.

use vstd::prelude::*;

use crate::group::g1_log;
use crate::group::g1_point_of;
use crate::group::g1a_deser;
use crate::group::g1a_ser;
use crate::group::group_order;
use crate::group::DecodeError;
use crate::group::G1;
use crate::modular::lemma_reduce;
use crate::modular::lemma_small;

use vstd::slice::slice_subrange;

verus! {

/// The value of a ciphertext: the discrete logarithms of its two points.
pub ghost struct CtView {
    pub a: int,
    pub b: int,
}

/// A ciphertext is a pair of two points, `(r·G, m + r·Y)` when produced by
/// an encryption with randomness `r` of a message `m` under the key
/// `(G, Y)`.
#[derive(Clone, Copy, PartialEq)]
pub struct Ciphertext(pub G1, pub G1);

impl View for Ciphertext {
    type V = CtView;

    open spec fn view(&self) -> CtView {
        CtView { a: g1_log(self.0), b: g1_log(self.1) }
    }
}

/// The sum of two ciphertexts, componentwise in the group.
pub open spec fn ct_add_spec(c1: CtView, c2: CtView) -> CtView {
    CtView {
        a: (c1.a + c2.a) % group_order(),
        b: (c1.b + c2.b) % group_order(),
    }
}

/// The ciphertext that a byte string canonically encodes: two compressed
/// points of 48 bytes each, back to back.  `None` where either segment is
/// malformed or the string is too short.
pub open spec fn ct_dec(b: Seq<u8>) -> Option<CtView> {
    if b.len() >= 96 && g1_point_of(b.subrange(0, 48)) is Some && g1_point_of(
        b.subrange(48, 96),
    ) is Some {
        Some(
            CtView {
                a: g1_point_of(b.subrange(0, 48)).unwrap(),
                b: g1_point_of(b.subrange(48, 96)).unwrap(),
            },
        )
    } else {
        None
    }
}

impl Ciphertext {
    /// Homomorphic addition: decrypting the sum of two ciphertexts of one
    /// key gives the sum of their two messages.
    pub fn add(&self, other: &Ciphertext) -> (r: Ciphertext)
        ensures
            r@ == ct_add_spec(self@, other@),
    {
        Ciphertext(self.0.add(&other.0), self.1.add(&other.1))
    }

    /// The canonical byte encoding of the ciphertext: the two compressed
    /// points, back to back.
    pub fn to_bytes(&self) -> (r: Vec<u8>)
        ensures
            r@.len() == 96,
            ct_dec(r@) == Some(
                CtView { a: self@.a % group_order(), b: self@.b % group_order() },
            ),
    {
        let mut out = g1a_ser(&self.0.into_affine());
        let ghost first = out@;
        let mut tail = g1a_ser(&self.1.into_affine());
        let ghost second = tail@;
        out.append(&mut tail);
        proof {
            assert(out@.subrange(0, 48) =~= first);
            assert(out@.subrange(48, 96) =~= second);
            lemma_reduce(self@.a);
            lemma_reduce(self@.b);
        }
        out
    }

    /// Decodes a ciphertext from its canonical byte encoding; trailing bytes
    /// are ignored.  Fails exactly where the string encodes none.
    pub fn from_bytes(b: &[u8]) -> (r: Result<Ciphertext, DecodeError>)
        ensures
            r is Ok <==> ct_dec(b@) is Some,
            r matches Ok(c) ==> Some(c@) == ct_dec(b@),
    {
        if b.len() < 96 {
            return Err(DecodeError);
        }
        let first = match g1a_deser(b) {
            Ok(p) => p,
            Err(e) => {
                return Err(e);
            },
        };
        let tail = slice_subrange(b, 48, 96);
        let second = match g1a_deser(tail) {
            Ok(p) => p,
            Err(e) => {
                proof {
                    assert(tail@.subrange(0, 48) =~= b@.subrange(48, 96));
                }
                return Err(e);
            },
        };
        proof {
            assert(tail@.subrange(0, 48) =~= b@.subrange(48, 96));
            lemma_small(crate::group::g1a_log(first));
            lemma_small(crate::group::g1a_log(second));
        }
        Ok(Ciphertext(first.into_group(), second.into_group()))
    }
}

} // verus!
