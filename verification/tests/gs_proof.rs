use bls_elgamal::prove;
use bls_elgamal::verify;
use bls_elgamal::Crs;
use bls_elgamal::Fr;
use bls_elgamal::G1;
use rand::SeedableRng;

fn rng() -> bls_elgamal::Rng {
    bls_elgamal::Rng::seed_from_u64(0)
}

#[test]
fn test_gs_proof() {
    let rng = &mut rng();

    let crs = Crs::rand(rng);

    // c = m + rY
    let m = G1::rand(rng);
    let y = G1::rand(rng);
    let r = Fr::rand(rng);
    let c = m.add(&y.mul(&r));

    // GS proof for multi-scalar multiplication equation:
    // yA + bX = c
    // where y = [r], A = [Y], X = [m], b = [1]

    let proof = prove(rng, &crs, vec![y], vec![r], vec![m], vec![Fr::one()]);

    assert!(verify(&crs, vec![y], vec![Fr::one()], c, &proof));

    // Test randomization

    let new_proof = proof.randomize(rng, &crs, vec![y], vec![Fr::one()]);
    assert!(proof.c != new_proof.c);
    assert!(proof.d != new_proof.d);
    assert!(proof.pi != new_proof.pi);
    assert!(proof.theta != new_proof.theta);

    assert!(verify(&crs, vec![y], vec![Fr::one()], c, &new_proof));
}

#[test]
fn test_gs_proof_rejects_tampering() {
    let rng = &mut rng();

    let crs = Crs::rand(rng);

    let m = G1::rand(rng);
    let y = G1::rand(rng);
    let r = Fr::rand(rng);
    let c = m.add(&y.mul(&r));

    let proof = prove(rng, &crs, vec![y], vec![r], vec![m], vec![Fr::one()]);
    assert!(verify(&crs, vec![y], vec![Fr::one()], c, &proof));

    // a modified target is rejected
    let wrong_target = c.add(&G1::rand(rng));
    assert!(!verify(&crs, vec![y], vec![Fr::one()], wrong_target, &proof));

    // a modified public vector A is rejected
    let wrong_a = G1::rand(rng);
    assert!(!verify(&crs, vec![wrong_a], vec![Fr::one()], c, &proof));

    // a modified public vector b is rejected
    let wrong_b = Fr::rand(rng);
    assert!(!verify(&crs, vec![y], vec![wrong_b], c, &proof));
}

#[test]
fn test_gs_proof_two_witnesses() {
    // the equation y1·A1 + y2·A2 + b1·X1 + b2·X2 = target with two
    // witnesses of each kind
    let rng = &mut rng();

    let crs = Crs::rand(rng);

    let a1 = G1::rand(rng);
    let a2 = G1::rand(rng);
    let y1 = Fr::rand(rng);
    let y2 = Fr::rand(rng);
    let x1 = G1::rand(rng);
    let x2 = G1::rand(rng);
    let b1 = Fr::rand(rng);
    let b2 = Fr::rand(rng);

    let target = a1.mul(&y1).add(&a2.mul(&y2)).add(&x1.mul(&b1)).add(&x2.mul(&b2));

    let proof = prove(
        rng,
        &crs,
        vec![a1, a2],
        vec![y1, y2],
        vec![x1, x2],
        vec![b1, b2],
    );
    assert!(verify(&crs, vec![a1, a2], vec![b1, b2], target, &proof));

    let new_proof = proof.randomize(rng, &crs, vec![a1, a2], vec![b1, b2]);
    assert!(verify(&crs, vec![a1, a2], vec![b1, b2], target, &new_proof));

    // the same proof does not verify a different statement
    assert!(!verify(&crs, vec![a1, a2], vec![b1, b2], G1::rand(rng), &proof));
}
