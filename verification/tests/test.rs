use bls_elgamal::Ciphertext;
use bls_elgamal::Fr;
use bls_elgamal::G1Affine;
use bls_elgamal::PublicKey;
use bls_elgamal::SecretKey;
use rand::SeedableRng;

fn rng() -> bls_elgamal::Rng {
    bls_elgamal::Rng::from_entropy()
}

#[test]
fn test_encrypt_decrypt() {
    for _ in 0..100 {
        let rng = &mut rng();
        let x = Fr::rand(rng);
        let g1 = G1Affine::rand(rng);

        let sk = SecretKey::new(g1, x);
        let pk = sk.public_key();

        let m = G1Affine::rand(rng);
        let r = Fr::rand(rng);

        // encrypt and decrypt the message
        let ct = pk.encrypt(m, r);
        let decrypted_m = sk.decrypt(ct);
        assert!(m == decrypted_m);
    }
}

#[test]
fn test_encrypt_different_message() {
    let rng = &mut rng();
    for _ in 0..100 {
        let x = Fr::rand(rng);
        let g1 = G1Affine::rand(rng);

        let sk = SecretKey::new(g1, x);
        let pk = sk.public_key();

        let m1 = G1Affine::rand(rng);
        let m2 = G1Affine::rand(rng);
        let r = Fr::rand(rng);

        // encrypt two different messages
        let ct1 = pk.encrypt(m1, r);
        let ct2 = pk.encrypt(m2, r);

        assert!(ct1 != ct2);
    }
}

#[test]
fn test_decrypt_modified_ciphertext() {
    let rng = &mut rng();
    for _ in 0..100 {
        let x = Fr::rand(rng);
        let g1 = G1Affine::rand(rng);

        let sk = SecretKey::new(g1, x);
        let pk = sk.public_key();

        let m = G1Affine::rand(rng);
        let r = Fr::rand(rng);
        let Ciphertext(c1, c2) = pk.encrypt(m, r);

        // modify the ciphertext
        let m_c1 = c1.add(&G1Affine::rand(rng).into_group());
        let m_c2 = c2.add(&G1Affine::rand(rng).into_group());
        let modified_ct = Ciphertext(m_c1, m_c2);

        let decrypted_m = sk.decrypt(modified_ct);
        assert!(m != decrypted_m);
    }
}

#[test]
fn test_homomorphic_ciphertext() {
    let rng = &mut rng();
    for _ in 0..100 {
        let x = Fr::rand(rng);
        let g1 = G1Affine::rand(rng);

        let sk = SecretKey::new(g1, x);
        let pk = sk.public_key();

        let m1 = G1Affine::rand(rng);
        let m2 = G1Affine::rand(rng);
        let r1 = Fr::rand(rng);
        let r2 = Fr::rand(rng);

        // encrypt two messages
        let ct1 = pk.encrypt(m1, r1);
        let ct2 = pk.encrypt(m2, r2);

        // add two ciphertexts
        let ct3 = ct1.add(&ct2);
        let decrypted_m1 = sk.decrypt(ct3);
        let decrypted_m2 = m1.into_group().add(&m2.into_group()).into_affine();
        assert!(decrypted_m1 == decrypted_m2);
    }
}

#[test]
fn test_serde() {
    let rng = &mut rng();
    let x = Fr::rand(rng);
    let g1 = G1Affine::rand(rng);

    let sk = SecretKey::new(g1, x);
    let pk = sk.public_key();

    let m = G1Affine::rand(rng);
    let r = Fr::rand(rng);
    let ct = pk.encrypt(m, r);

    // test serialize and deserialize for secret key
    let serialized = sk.to_bytes();
    let deserialized_sk: SecretKey = SecretKey::from_bytes(&serialized).unwrap();
    assert!(sk == deserialized_sk);

    // test serialize and deserialize for public key
    let serialized = pk.to_bytes();
    let deserialized_pk: PublicKey = PublicKey::from_bytes(&serialized).unwrap();
    assert!(pk == deserialized_pk);

    // test serialize and deserialize for ciphertext
    let serialized = ct.to_bytes();
    let deserialized_ct: Ciphertext = Ciphertext::from_bytes(&serialized).unwrap();
    assert!(ct == deserialized_ct);

    // test encrypt and decrypt after serialization and deserialization
    let check_ct = deserialized_pk.encrypt(m, r);
    assert!(ct == check_ct);
    let decrypt_m = deserialized_sk.decrypt(check_ct);
    assert!(m == decrypt_m);
}

#[test]
fn test_rerandomize_same_message() {
    let rng = &mut rng();
    for _ in 0..20 {
        let x = Fr::rand(rng);
        let g1 = G1Affine::rand(rng);
        let sk = SecretKey::new(g1, x);
        let pk = sk.public_key();

        let m = G1Affine::rand(rng);
        let r = Fr::rand(rng);
        let ct = pk.encrypt(m, r);

        let new_ct = pk.rerandomize(ct, Fr::rand(rng));
        // the rerandomized ciphertext looks fresh but hides the same message
        assert!(ct != new_ct);
        assert!(sk.decrypt(new_ct) == m);
        assert!(sk.decrypt(ct) == m);
    }
}

#[test]
fn test_decrypt_wrong_key() {
    let rng = &mut rng();
    for _ in 0..20 {
        let g1 = G1Affine::rand(rng);
        let sk = SecretKey::new(g1, Fr::rand(rng));
        let other = SecretKey::new(g1, Fr::rand(rng));
        let pk = sk.public_key();

        let m = G1Affine::rand(rng);
        let ct = pk.encrypt(m, Fr::rand(rng));

        // decrypting under an unrelated secret yields some other element,
        // with no signal of the mismatch
        assert!(other.decrypt(ct) != m);
        assert!(sk.decrypt(ct) == m);
    }
}

#[test]
fn test_decode_rejects_malformed() {
    let rng = &mut rng();
    let x = Fr::rand(rng);
    let g1 = G1Affine::rand(rng);
    let sk = SecretKey::new(g1, x);
    let pk = sk.public_key();
    let ct = pk.encrypt(G1Affine::rand(rng), Fr::rand(rng));

    // truncated input
    let bytes = pk.to_bytes();
    assert!(PublicKey::from_bytes(&bytes[..95]).is_err());
    let bytes = sk.to_bytes();
    assert!(SecretKey::from_bytes(&bytes[..127]).is_err());
    let bytes = ct.to_bytes();
    assert!(Ciphertext::from_bytes(&bytes[..95]).is_err());

    // garbage that encodes no curve point
    let garbage = vec![0xffu8; 96];
    assert!(PublicKey::from_bytes(&garbage).is_err());
    assert!(Ciphertext::from_bytes(&garbage).is_err());

    // trailing bytes are ignored
    let mut bytes = ct.to_bytes();
    bytes.push(0);
    let decoded = Ciphertext::from_bytes(&bytes).unwrap();
    assert!(decoded == ct);
}

#[test]
fn test_concrete_scenario() {
    // with generator G, secret x, public Y = x·G and a message P, the
    // ciphertext is (r·G, r·Y + P) and decryption recovers P exactly; a
    // second encryption under different randomness differs but decrypts to
    // the same P
    let rng = &mut rng();
    let g = G1Affine::rand(rng);
    let x = Fr::rand(rng);
    let sk = SecretKey::new(g, x);
    let pk = sk.public_key();

    let p = G1Affine::rand(rng);
    let r = Fr::rand(rng);
    let r2 = Fr::rand(rng);

    let ct = pk.encrypt(p, r);
    let expected_a = g.into_group().mul(&r);
    let expected_b = g.into_group().mul(&x).mul(&r).add(&p.into_group());
    assert!(ct == Ciphertext(expected_a, expected_b));
    assert!(sk.decrypt(ct) == p);

    let ct2 = pk.encrypt(p, r2);
    assert!(ct != ct2);
    assert!(sk.decrypt(ct2) == p);
}
