//! The encryption key and the operations that need no secret: encryption,
//! rerandomization, and the byte codec of the key.

use vstd::prelude::*;

use crate::ciphertext::Ciphertext;
use crate::ciphertext::CtView;
use crate::group::g1_log;
use crate::group::g1_point_of;
use crate::group::g1a_deser;
use crate::group::g1a_log;
use crate::group::g1a_ser;
use crate::group::group_order;
use crate::group::scalar_of;
use crate::group::DecodeError;
use crate::group::Fr;
use crate::group::G1;
use crate::group::G1Affine;
use crate::modular::lemma_add_mod_left;
use crate::modular::lemma_reduce;
use crate::modular::lemma_small;

use vstd::slice::slice_subrange;

verus! {

/// The value of an encryption key: the discrete logarithms of the group
/// generator it carries and of the public point `y = x·G`.
pub ghost struct EkView {
    pub generator: int,
    pub y: int,
}

/// A key to encrypt a message.  It holds the group generator `G` and the
/// public point `y = x·G` for the secret `x`; it should be created from the
/// secret key [`DecryptKey`](crate::decrypt::DecryptKey).
#[derive(Clone, Copy, PartialEq)]
pub struct EncryptKey {
    pub generator: G1,
    pub y: G1,
}

impl View for EncryptKey {
    type V = EkView;

    open spec fn view(&self) -> EkView {
        EkView { generator: g1_log(self.generator), y: g1_log(self.y) }
    }
}

/// The ciphertext `(r·G, m + r·Y)` of the message `m` encrypted under the
/// key with randomness `r`, over the discrete logarithms.
pub open spec fn encrypt_spec(ek: EkView, m: int, r: int) -> CtView {
    CtView {
        a: (ek.generator * r) % group_order(),
        b: (ek.y * r + m) % group_order(),
    }
}

/// The ciphertext `(A + r·G, B + r·Y)`: the same message as `(A, B)` under
/// fresh-looking randomness.
pub open spec fn rerandomize_spec(ek: EkView, ct: CtView, r: int) -> CtView {
    CtView {
        a: (ct.a + ek.generator * r) % group_order(),
        b: (ct.b + ek.y * r) % group_order(),
    }
}

/// The encryption key that a byte string canonically encodes: the compressed
/// generator then the compressed public point, 48 bytes each.
pub open spec fn ek_dec(b: Seq<u8>) -> Option<EkView> {
    if b.len() >= 96 && g1_point_of(b.subrange(0, 48)) is Some && g1_point_of(
        b.subrange(48, 96),
    ) is Some {
        Some(
            EkView {
                generator: g1_point_of(b.subrange(0, 48)).unwrap(),
                y: g1_point_of(b.subrange(48, 96)).unwrap(),
            },
        )
    } else {
        None
    }
}

impl EncryptKey {
    /// Encrypt a message `m` with randomness `r`.  The ciphertext is
    /// `(r·G, m + r·Y)`.  The caller must supply a fresh, uniformly random
    /// `r` for every encryption: reusing `r` across two messages under one
    /// key leaks the relation between the two plaintexts.
    pub fn encrypt(&self, m: G1Affine, r: Fr) -> (ct: Ciphertext)
        ensures
            ct@ == encrypt_spec(self@, g1a_log(m), scalar_of(r)),
    {
        let a = self.generator.mul(&r);
        let b = self.y.mul(&r).add(&m.into_group());
        proof {
            lemma_add_mod_left(self@.y * scalar_of(r), g1a_log(m));
            lemma_add_mod_left((self@.y * scalar_of(r)) % group_order(), g1a_log(m));
        }
        Ciphertext(a, b)
    }

    /// Rerandomize a ciphertext with randomness `r`.  The result is
    /// `(A + r·G, B + r·Y)`: a ciphertext of the same message that does not
    /// need the secret key to produce.
    pub fn rerandomize(&self, ct: Ciphertext, r: Fr) -> (res: Ciphertext)
        ensures
            res@ == rerandomize_spec(self@, ct@, scalar_of(r)),
    {
        let a = ct.0.add(&self.generator.mul(&r));
        let b = ct.1.add(&self.y.mul(&r));
        proof {
            lemma_add_mod_left(ct@.a, self@.generator * scalar_of(r));
            lemma_add_mod_left(ct@.b, self@.y * scalar_of(r));
        }
        Ciphertext(a, b)
    }

    /// The group generator the key was built over, as an affine point.
    pub fn generator(&self) -> (r: G1Affine)
        ensures
            g1a_log(r) == self@.generator % group_order(),
    {
        self.generator.into_affine()
    }

    /// The public point `y = x·G` where `x` is the secret, as an affine
    /// point.
    pub fn y(&self) -> (r: G1Affine)
        ensures
            g1a_log(r) == self@.y % group_order(),
    {
        self.y.into_affine()
    }

    /// The canonical byte encoding of the key: the compressed generator,
    /// then the compressed public point.
    pub fn to_bytes(&self) -> (r: Vec<u8>)
        ensures
            r@.len() == 96,
            ek_dec(r@) == Some(
                EkView {
                    generator: self@.generator % group_order(),
                    y: self@.y % group_order(),
                },
            ),
    {
        let mut out = g1a_ser(&self.generator.into_affine());
        let ghost first = out@;
        let mut tail = g1a_ser(&self.y.into_affine());
        let ghost second = tail@;
        out.append(&mut tail);
        proof {
            assert(out@.subrange(0, 48) =~= first);
            assert(out@.subrange(48, 96) =~= second);
            lemma_reduce(self@.generator);
            lemma_reduce(self@.y);
        }
        out
    }

    /// Decodes an encryption key from its canonical byte encoding; trailing
    /// bytes are ignored.  Fails exactly where the string encodes none.
    pub fn from_bytes(b: &[u8]) -> (r: Result<EncryptKey, DecodeError>)
        ensures
            r is Ok <==> ek_dec(b@) is Some,
            r matches Ok(k) ==> Some(k@) == ek_dec(b@),
    {
        if b.len() < 96 {
            return Err(DecodeError);
        }
        let generator = match g1a_deser(b) {
            Ok(p) => p,
            Err(e) => {
                return Err(e);
            },
        };
        let tail = slice_subrange(b, 48, 96);
        let y = match g1a_deser(tail) {
            Ok(p) => p,
            Err(e) => {
                proof {
                    assert(tail@.subrange(0, 48) =~= b@.subrange(48, 96));
                }
                return Err(e);
            },
        };
        proof {
            assert(tail@.subrange(0, 48) =~= b@.subrange(48, 96));
            lemma_small(g1a_log(generator));
            lemma_small(g1a_log(y));
        }
        Ok(EncryptKey { generator: generator.into_group(), y: y.into_group() })
    }
}

} // verus!
