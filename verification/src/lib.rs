//! Additively homomorphic ElGamal encryption over the BLS12-381 curve,
//! together with a Groth–Sahai style non-interactive argument that a
//! committed group element satisfies a public linear multi-scalar
//! multiplication relation.

use vstd::prelude::*;

pub mod ciphertext;
pub mod decrypt;
pub mod encrypt;
pub mod group;
pub mod matrix;
pub mod matspec;
pub mod modular;
pub mod nizk;

pub use ciphertext::Ciphertext;
pub use decrypt::DecryptKey;
pub use encrypt::EncryptKey;
pub use group::DecodeError;
pub use group::Fr;
pub use group::G1;
pub use group::G1Affine;
pub use group::Rng;
pub use nizk::prove;
pub use nizk::verify;
pub use nizk::Crs;
pub use nizk::Proof;

use crate::decrypt::decrypt_spec;
use crate::decrypt::dk_dec;
use crate::decrypt::dk_wf;
use crate::decrypt::DkView;
use crate::encrypt::ek_dec;
use crate::encrypt::encrypt_spec;
use crate::encrypt::rerandomize_spec;
use crate::encrypt::EkView;
use crate::group::g1a_log;
use crate::group::group_order;
use crate::group::scalar_of;

verus! {

/// A secret key for ElGamal encryption over the BLS12-381 curve: a wrapper
/// around the [`DecryptKey`] struct.
#[derive(Clone, Copy, PartialEq)]
pub struct SecretKey {
    pub inner: DecryptKey,
}

/// A public key for ElGamal encryption over the BLS12-381 curve: a wrapper
/// around the [`EncryptKey`] struct.  It is created from the secret key
/// [`SecretKey`].
#[derive(Clone, Copy, PartialEq)]
pub struct PublicKey {
    pub inner: EncryptKey,
}

impl View for SecretKey {
    type V = DkView;

    open spec fn view(&self) -> DkView {
        self.inner@
    }
}

impl View for PublicKey {
    type V = EkView;

    open spec fn view(&self) -> EkView {
        self.inner@
    }
}

impl SecretKey {
    /// Create a new secret key with group generator `g1` and secret `x`.
    pub fn new(g1: G1Affine, x: Fr) -> (sk: SecretKey)
        ensures
            sk@.secret == scalar_of(x),
            sk@.ek.generator == g1a_log(g1) % group_order(),
            sk@.ek.y == (g1a_log(g1) * scalar_of(x)) % group_order(),
            dk_wf(sk@),
    {
        SecretKey { inner: DecryptKey::new(g1, x) }
    }

    /// Decrypt a ciphertext `ct` to get the message.
    pub fn decrypt(&self, ct: Ciphertext) -> (m: G1Affine)
        ensures
            g1a_log(m) == decrypt_spec(self@, ct@),
    {
        self.inner.decrypt(ct)
    }

    /// Get the public key from the secret key.
    pub fn public_key(&self) -> (pk: PublicKey)
        ensures
            pk@ == self@.ek,
    {
        PublicKey { inner: *self.inner.encrypt_key() }
    }

    /// The canonical byte encoding of the secret key.
    pub fn to_bytes(&self) -> (r: Vec<u8>)
        ensures
            r@.len() == 128,
            dk_dec(r@) == Some(
                DkView {
                    secret: self@.secret % group_order(),
                    ek: EkView {
                        generator: self@.ek.generator % group_order(),
                        y: self@.ek.y % group_order(),
                    },
                },
            ),
    {
        self.inner.to_bytes()
    }

    /// Decodes a secret key from its canonical byte encoding.
    pub fn from_bytes(b: &[u8]) -> (r: Result<SecretKey, DecodeError>)
        ensures
            r is Ok <==> dk_dec(b@) is Some,
            r matches Ok(k) ==> Some(k@) == dk_dec(b@),
    {
        match DecryptKey::from_bytes(b) {
            Ok(inner) => Ok(SecretKey { inner }),
            Err(e) => Err(e),
        }
    }
}

impl PublicKey {
    /// Encrypt a message `m` with randomness `r` to get a ciphertext.
    pub fn encrypt(&self, m: G1Affine, r: Fr) -> (ct: Ciphertext)
        ensures
            ct@ == encrypt_spec(self@, g1a_log(m), scalar_of(r)),
    {
        self.inner.encrypt(m, r)
    }

    /// Rerandomize a ciphertext `ct` with randomness `r`: the result
    /// decrypts to the same message under the paired secret key.
    pub fn rerandomize(&self, ct: Ciphertext, r: Fr) -> (res: Ciphertext)
        ensures
            res@ == rerandomize_spec(self@, ct@, scalar_of(r)),
    {
        self.inner.rerandomize(ct, r)
    }

    /// The canonical byte encoding of the public key.
    pub fn to_bytes(&self) -> (r: Vec<u8>)
        ensures
            r@.len() == 96,
            ek_dec(r@) == Some(
                EkView {
                    generator: self@.generator % group_order(),
                    y: self@.y % group_order(),
                },
            ),
    {
        self.inner.to_bytes()
    }

    /// Decodes a public key from its canonical byte encoding.
    pub fn from_bytes(b: &[u8]) -> (r: Result<PublicKey, DecodeError>)
        ensures
            r is Ok <==> ek_dec(b@) is Some,
            r matches Ok(k) ==> Some(k@) == ek_dec(b@),
    {
        match EncryptKey::from_bytes(b) {
            Ok(inner) => Ok(PublicKey { inner }),
            Err(e) => Err(e),
        }
    }
}

} // verus!
