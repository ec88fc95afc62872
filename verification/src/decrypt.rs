//! The decryption key, decryption, and the laws of the encryption scheme.

use vstd::prelude::*;

use crate::ciphertext::ct_add_spec;
use crate::ciphertext::Ciphertext;
use crate::ciphertext::CtView;
use crate::encrypt::ek_dec;
use crate::encrypt::encrypt_spec;
use crate::encrypt::rerandomize_spec;
use crate::encrypt::EkView;
use crate::encrypt::EncryptKey;
use crate::group::fr_deser;
use crate::group::fr_neg;
use crate::group::fr_scalar_of;
use crate::group::fr_ser;
use crate::group::g1a_log;
use crate::group::group_order;
use crate::group::scalar_of;
use crate::group::DecodeError;
use crate::group::Fr;
use crate::group::G1Affine;
use crate::modular::congruent;
use crate::modular::lemma_add_multiple_congruent;
use crate::modular::lemma_congruent_add;
use crate::modular::lemma_congruent_mul;
use crate::modular::lemma_congruent_neg;
use crate::modular::lemma_congruent_sub;
use crate::modular::lemma_mul_mod_left;
use crate::modular::lemma_reduce;
use crate::modular::lemma_small;
use crate::modular::lemma_sub_mod_left;

use vstd::arithmetic::div_mod::lemma_mod_equivalence;
use vstd::slice::slice_subrange;

verus! {

/// The value of a decryption key: the secret scalar and the value of the
/// paired encryption key.
pub ghost struct DkView {
    pub secret: int,
    pub ek: EkView,
}

/// A key to decrypt a message: the secret scalar `x` together with the
/// paired encryption key `(G, y)`.
#[derive(Clone, Copy, PartialEq)]
pub struct DecryptKey {
    pub secret: Fr,
    pub encrypt_key: EncryptKey,
}

impl View for DecryptKey {
    type V = DkView;

    open spec fn view(&self) -> DkView {
        DkView { secret: scalar_of(self.secret), ek: self.encrypt_key@ }
    }
}

/// The key invariant: the public point is the generator times the secret.
/// `DecryptKey::new` establishes it; a key decoded from bytes need not
/// satisfy it, since the encoding carries the two parts independently.
pub open spec fn dk_wf(dk: DkView) -> bool {
    congruent(dk.ek.y, dk.ek.generator * dk.secret)
}

/// What decrypting `(A, B)` returns: the logarithm of `B - x·A`.  Never a
/// failure: a ciphertext of another key, or a tampered one, decrypts to
/// some group element with no signal of invalidity.
pub open spec fn decrypt_spec(dk: DkView, ct: CtView) -> int {
    (ct.b - dk.secret * ct.a) % group_order()
}

/// The decryption key that a byte string canonically encodes: the
/// compressed secret scalar, then the encoding of the encryption key.
pub open spec fn dk_dec(b: Seq<u8>) -> Option<DkView> {
    if b.len() >= 32 && fr_scalar_of(b.subrange(0, 32)) is Some && ek_dec(
        b.subrange(32, b.len() as int),
    ) is Some {
        Some(
            DkView {
                secret: fr_scalar_of(b.subrange(0, 32)).unwrap(),
                ek: ek_dec(b.subrange(32, b.len() as int)).unwrap(),
            },
        )
    } else {
        None
    }
}

impl DecryptKey {
    /// Create a new decryption key with group generator `generator` and
    /// secret `x`, computing the public point `y = x·G`.  Every pair is
    /// valid: there is no failure mode.
    pub fn new(generator: G1Affine, x: Fr) -> (dk: DecryptKey)
        ensures
            dk@.secret == scalar_of(x),
            dk@.ek.generator == g1a_log(generator) % group_order(),
            dk@.ek.y == (g1a_log(generator) * scalar_of(x)) % group_order(),
            dk_wf(dk@),
    {
        let g = generator.into_group();
        let y = g.mul(&x);
        proof {
            lemma_mul_mod_left(g1a_log(generator), scalar_of(x));
            lemma_reduce(g1a_log(generator) * scalar_of(x));
            lemma_mul_mod_left(g1a_log(generator), scalar_of(x));
        }
        DecryptKey { secret: x, encrypt_key: EncryptKey { generator: g, y } }
    }

    /// Decrypt a ciphertext `(A, B)` to the point `B - x·A`.  This never
    /// fails and never signals a mismatch: with the matching key it returns
    /// the encrypted message, with any other input it returns some group
    /// element.
    pub fn decrypt(&self, ct: Ciphertext) -> (m: G1Affine)
        ensures
            g1a_log(m) == decrypt_spec(self@, ct@),
    {
        let nx = fr_neg(&self.secret);
        let t = ct.0.mul(&nx);
        let s = ct.1.add(&t);
        proof {
            let q = group_order();
            let x = self@.secret;
            let a = ct@.a;
            let b = ct@.b;
            lemma_congruent_neg(x);
            lemma_mul_mod_left(a, q - x);
            lemma_congruent_mul(a, a, q - x, -x);
            assert(a * (-x) == -(x * a)) by (nonlinear_arith);
            crate::modular::lemma_add_mod_left(b, -(x * a));
            lemma_reduce(b - x * a);
        }
        s.into_affine()
    }

    /// The paired encryption key.
    pub fn encrypt_key(&self) -> (r: &EncryptKey)
        ensures
            r@ == self@.ek,
    {
        &self.encrypt_key
    }

    /// The secret scalar `x`.  It must be treated as sensitive.
    pub fn secret(&self) -> (r: Fr)
        ensures
            scalar_of(r) == self@.secret,
    {
        self.secret
    }

    /// The canonical byte encoding of the key: the compressed secret, then
    /// the encoding of the encryption key.
    pub fn to_bytes(&self) -> (r: Vec<u8>)
        ensures
            r@.len() == 128,
            dk_dec(r@) == Some(
                DkView {
                    secret: self@.secret % group_order(),
                    ek: EkView {
                        generator: self@.ek.generator % group_order(),
                        y: self@.ek.y % group_order(),
                    },
                },
            ),
    {
        let mut out = fr_ser(&self.secret);
        let ghost first = out@;
        let mut tail = self.encrypt_key.to_bytes();
        let ghost second = tail@;
        out.append(&mut tail);
        proof {
            assert(out@.subrange(0, 32) =~= first);
            assert(out@.subrange(32, 128) =~= second);
            lemma_reduce(self@.secret);
        }
        out
    }

    /// Decodes a decryption key from its canonical byte encoding; trailing
    /// bytes are ignored.  Fails exactly where the string encodes none.
    /// Decoding does not check that the parts belong together: the key
    /// invariant holds only of keys built by [`DecryptKey::new`].
    pub fn from_bytes(b: &[u8]) -> (r: Result<DecryptKey, DecodeError>)
        ensures
            r is Ok <==> dk_dec(b@) is Some,
            r matches Ok(k) ==> Some(k@) == dk_dec(b@),
    {
        let secret = match fr_deser(b) {
            Ok(s) => s,
            Err(e) => {
                return Err(e);
            },
        };
        let tail = slice_subrange(b, 32, b.len());
        let encrypt_key = match EncryptKey::from_bytes(tail) {
            Ok(k) => k,
            Err(e) => {
                proof {
                    assert(tail@ =~= b@.subrange(32, b@.len() as int));
                }
                return Err(e);
            },
        };
        proof {
            assert(tail@ =~= b@.subrange(32, b@.len() as int));
        }
        Ok(DecryptKey { secret, encrypt_key })
    }
}

// The laws of the scheme, stated over the views that the contracts above
// use.

/// Round trip: decrypting an encryption of `m` under the matching key
/// returns exactly `m`, for every generator, secret, message and
/// randomness.
pub proof fn lemma_encrypt_then_decrypt(dk: DkView, m: int, r: int)
    requires
        dk_wf(dk),
    ensures
        decrypt_spec(dk, encrypt_spec(dk.ek, m, r)) == m % group_order(),
{
    let q = group_order();
    let g = dk.ek.generator;
    let y = dk.ek.y;
    let x = dk.secret;
    let ct = encrypt_spec(dk.ek, m, r);
    lemma_sub_mod_left(y * r + m, x * ct.a);
    lemma_reduce(g * r);
    lemma_congruent_mul(x, x, (g * r) % q, g * r);
    lemma_congruent_sub(y * r + m, y * r + m, x * ct.a, x * (g * r));
    lemma_congruent_mul(y, g * x, r, r);
    lemma_congruent_add(y * r, (g * x) * r, m, m);
    lemma_congruent_sub(y * r + m, (g * x) * r + m, x * (g * r), x * (g * r));
    assert((g * x) * r == x * (g * r)) by (nonlinear_arith);
}

/// Homomorphism: decrypting the sum of two ciphertexts gives the sum of
/// what each decrypts to, under any one key.
pub proof fn lemma_homomorphism(dk: DkView, c1: CtView, c2: CtView)
    ensures
        decrypt_spec(dk, ct_add_spec(c1, c2)) == (decrypt_spec(dk, c1) + decrypt_spec(
            dk,
            c2,
        )) % group_order(),
{
    let q = group_order();
    let x = dk.secret;
    let sum = ct_add_spec(c1, c2);
    lemma_sub_mod_left(c1.b + c2.b, x * sum.a);
    lemma_reduce(c1.a + c2.a);
    lemma_congruent_mul(x, x, (c1.a + c2.a) % q, c1.a + c2.a);
    lemma_congruent_sub(c1.b + c2.b, c1.b + c2.b, x * sum.a, x * (c1.a + c2.a));
    assert(c1.b + c2.b - x * (c1.a + c2.a) == (c1.b - x * c1.a) + (c2.b - x * c2.a))
        by (nonlinear_arith);
    vstd::arithmetic::div_mod::lemma_add_mod_noop(c1.b - x * c1.a, c2.b - x * c2.a, q);
}

/// Rerandomization invariance: a rerandomized ciphertext decrypts to the
/// same message as the original, for every ciphertext and randomness.
pub proof fn lemma_rerandomize_then_decrypt(dk: DkView, ct: CtView, r: int)
    requires
        dk_wf(dk),
    ensures
        decrypt_spec(dk, rerandomize_spec(dk.ek, ct, r)) == decrypt_spec(dk, ct),
{
    let q = group_order();
    let g = dk.ek.generator;
    let y = dk.ek.y;
    let x = dk.secret;
    let new = rerandomize_spec(dk.ek, ct, r);
    lemma_sub_mod_left(ct.b + y * r, x * new.a);
    lemma_reduce(ct.a + g * r);
    lemma_congruent_mul(x, x, (ct.a + g * r) % q, ct.a + g * r);
    lemma_congruent_sub(ct.b + y * r, ct.b + y * r, x * new.a, x * (ct.a + g * r));
    assert(x * (ct.a + g * r) == x * ct.a + x * (g * r)) by (nonlinear_arith);
    assert(y * r - x * (g * r) == r * (y - g * x)) by (nonlinear_arith);
    lemma_congruent_sub(y, g * x, g * x, g * x);
    lemma_add_multiple_congruent(ct.b - x * ct.a, r, y - g * x, 0);
}

/// A rerandomization with a randomness that moves the first point at all
/// produces a ciphertext that differs from the original.
pub proof fn lemma_rerandomize_differs(ek: EkView, ct: CtView, r: int)
    requires
        0 <= ct.a < group_order(),
        (ek.generator * r) % group_order() != 0,
    ensures
        rerandomize_spec(ek, ct, r).a != ct.a,
{
    let q = group_order();
    lemma_small(ct.a);
    if rerandomize_spec(ek, ct, r).a == ct.a {
        lemma_mod_equivalence(ct.a + ek.generator * r, ct.a, q);
    }
}

/// Key mismatch: decrypting with another secret returns the message shifted
/// by `(r·G)·(x - x')`; whenever that shift is not a multiple of the group
/// order, the result differs from the message.
pub proof fn lemma_decrypt_wrong_key(dk: DkView, other: DkView, m: int, r: int)
    requires
        dk_wf(dk),
    ensures
        decrypt_spec(other, encrypt_spec(dk.ek, m, r)) == (m + (dk.ek.generator * r) * (dk.secret
            - other.secret)) % group_order(),
        ((dk.ek.generator * r) * (dk.secret - other.secret)) % group_order() != 0 && 0 <= m
            < group_order() ==> decrypt_spec(other, encrypt_spec(dk.ek, m, r)) != m,
{
    let q = group_order();
    let g = dk.ek.generator;
    let y = dk.ek.y;
    let x1 = dk.secret;
    let x2 = other.secret;
    let ct = encrypt_spec(dk.ek, m, r);
    let shift = (g * r) * (x1 - x2);
    lemma_sub_mod_left(y * r + m, x2 * ct.a);
    lemma_reduce(g * r);
    lemma_congruent_mul(x2, x2, (g * r) % q, g * r);
    lemma_congruent_sub(y * r + m, y * r + m, x2 * ct.a, x2 * (g * r));
    lemma_congruent_mul(y, g * x1, r, r);
    lemma_congruent_add(y * r, (g * x1) * r, m, m);
    lemma_congruent_sub(y * r + m, (g * x1) * r + m, x2 * (g * r), x2 * (g * r));
    assert((g * x1) * r == (g * r) * x1) by (nonlinear_arith);
    assert(x2 * (g * r) == (g * r) * x2) by (nonlinear_arith);
    assert((g * r) * x1 - (g * r) * x2 == (g * r) * (x1 - x2)) by (nonlinear_arith);
    if shift % q != 0 && 0 <= m < q {
        lemma_small(m);
        if (m + shift) % q == m {
            lemma_mod_equivalence(m + shift, m, q);
        }
    }
}

} // verus!
