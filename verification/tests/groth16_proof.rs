//! End-to-end oracle tests: parameters, proof and verification all run
//! through the external Groth16 prover with the QAP reduction of this
//! library plugged in, on the BN254 curve the library's field matches.

use ark_bn254::{Bn254, Fr};
use ark_ff::{BigInteger, PrimeField};
use ark_groth16::r1cs_to_qap::{LibsnarkReduction, R1CSToQAP};
use ark_groth16::{prepare_verifying_key, Groth16};
use ark_poly::EvaluationDomain;
use ark_relations::gr1cs::{
    ConstraintSynthesizer, ConstraintSystemRef, LinearCombination, Matrix, SynthesisError,
    Variable,
};
use ark_std::rand::rngs::StdRng;
use ark_std::rand::SeedableRng;

use circom_qap::field::Felt;
use circom_qap::qap::ConstraintSystem;
use circom_qap::R1CStoQAPCircom;

/// Reads the canonical little-endian limbs of a field element.  Exact for
/// fields whose modulus is the BN254 scalar prime, the only ones these
/// tests instantiate.
fn field_to_felt<F: PrimeField>(x: &F) -> Felt {
    let bytes = x.into_bigint().to_bytes_le();
    let mut limbs = [0u64; 4];
    for (i, chunk) in bytes.chunks(8).enumerate().take(4) {
        let mut word = [0u8; 8];
        word[..chunk.len()].copy_from_slice(chunk);
        limbs[i] = u64::from_le_bytes(word);
    }
    Felt {
        l0: limbs[0],
        l1: limbs[1],
        l2: limbs[2],
        l3: limbs[3],
    }
}

fn felt_to_field<F: PrimeField>(f: &Felt) -> F {
    let mut bytes = Vec::new();
    for limb in [f.l0, f.l1, f.l2, f.l3] {
        bytes.extend_from_slice(&limb.to_le_bytes());
    }
    F::from_le_bytes_mod_order(&bytes)
}

fn convert_matrix<F: PrimeField>(m: &Matrix<F>, num_variables: usize) -> Vec<Vec<(Felt, usize)>> {
    m.iter()
        .map(|row| {
            row.iter()
                .map(|(coeff, index)| {
                    assert!(*index < num_variables, "row index out of range");
                    (field_to_felt(coeff), *index)
                })
                .collect()
        })
        .collect()
}

/// The QAP reduction of this library, shaped as the external prover's
/// `R1CSToQAP` plug-in point expects.
struct CircomQap;

impl R1CSToQAP for CircomQap {
    fn instance_map_with_evaluation<F: PrimeField, D: EvaluationDomain<F>>(
        cs: ConstraintSystemRef<F>,
        t: &F,
    ) -> Result<(Vec<F>, Vec<F>, Vec<F>, F, usize, usize), SynthesisError> {
        LibsnarkReduction::instance_map_with_evaluation::<F, D>(cs, t)
    }

    fn witness_map_from_matrices<F: PrimeField, D: EvaluationDomain<F>>(
        matrices: &[Matrix<F>],
        num_inputs: usize,
        num_constraints: usize,
        full_assignment: &[F],
    ) -> Result<Vec<F>, SynthesisError> {
        assert_eq!(matrices.len(), 3, "expected the three R1CS matrices");
        assert_eq!(matrices[0].len(), num_constraints);
        assert_eq!(matrices[1].len(), num_constraints);
        assert_eq!(matrices[2].len(), num_constraints);
        assert!(num_inputs <= full_assignment.len());
        let num_variables = full_assignment.len();
        let cs = ConstraintSystem {
            a: convert_matrix(&matrices[0], num_variables),
            b: convert_matrix(&matrices[1], num_variables),
            c: convert_matrix(&matrices[2], num_variables),
            instance: full_assignment[..num_inputs].iter().map(field_to_felt).collect(),
            witness: full_assignment[num_inputs..].iter().map(field_to_felt).collect(),
        };
        let h = R1CStoQAPCircom::witness_map(&cs)
            .map_err(|_| SynthesisError::PolynomialDegreeTooLarge)?;
        Ok(h.iter().map(felt_to_field).collect())
    }

    fn h_query_scalars<F: PrimeField, D: EvaluationDomain<F>>(
        max_power: usize,
        t: F,
        _zt: F,
        delta_inverse: F,
    ) -> Result<Vec<F>, SynthesisError> {
        let scalars = R1CStoQAPCircom::h_query_scalars(
            max_power,
            &field_to_felt(&t),
            &field_to_felt(&delta_inverse),
        )
        .map_err(|_| SynthesisError::PolynomialDegreeTooLarge)?;
        Ok(scalars.iter().map(felt_to_field).collect())
    }
}

fn lc_of(var: Variable) -> LinearCombination<Fr> {
    LinearCombination(vec![(Fr::from(1u64), var)])
}

/// The trivially satisfied system: one constraint `x * 1 = x` on a public
/// input `x`.
struct IdentityCircuit {
    x: Option<Fr>,
}

impl ConstraintSynthesizer<Fr> for IdentityCircuit {
    fn generate_constraints(self, cs: ConstraintSystemRef<Fr>) -> Result<(), SynthesisError> {
        let x = cs.new_input_variable(|| self.x.ok_or(SynthesisError::AssignmentMissing))?;
        cs.enforce_r1cs_constraint(|| lc_of(x), || lc_of(Variable::One), || lc_of(x))?;
        Ok(())
    }
}

/// A small multiplicative circuit: public `c`, private `a`, `b` with
/// `a * b = c`.
struct MultiplyCircuit {
    a: Option<Fr>,
    b: Option<Fr>,
}

impl ConstraintSynthesizer<Fr> for MultiplyCircuit {
    fn generate_constraints(self, cs: ConstraintSystemRef<Fr>) -> Result<(), SynthesisError> {
        let a = cs.new_witness_variable(|| self.a.ok_or(SynthesisError::AssignmentMissing))?;
        let b = cs.new_witness_variable(|| self.b.ok_or(SynthesisError::AssignmentMissing))?;
        let c = cs.new_input_variable(|| {
            let a = self.a.ok_or(SynthesisError::AssignmentMissing)?;
            let b = self.b.ok_or(SynthesisError::AssignmentMissing)?;
            Ok(a * b)
        })?;
        cs.enforce_r1cs_constraint(|| lc_of(a), || lc_of(b), || lc_of(c))?;
        Ok(())
    }
}

#[test]
fn trivial_system_proof_verifies() {
    let mut rng = StdRng::seed_from_u64(42);
    let pk = Groth16::<Bn254, CircomQap>::generate_random_parameters_with_reduction(
        IdentityCircuit { x: None },
        &mut rng,
    )
    .unwrap();
    let pvk = prepare_verifying_key(&pk.vk);
    let x = Fr::from(1u64);
    let proof = Groth16::<Bn254, CircomQap>::create_random_proof_with_reduction(
        IdentityCircuit { x: Some(x) },
        &pk,
        &mut rng,
    )
    .unwrap();
    assert!(Groth16::<Bn254, CircomQap>::verify_proof(&pvk, &proof, &[x]).unwrap());
    let wrong = Fr::from(2u64);
    assert!(!Groth16::<Bn254, CircomQap>::verify_proof(&pvk, &proof, &[wrong]).unwrap());
}

#[test]
fn multiplication_proof_verifies() {
    let mut rng = StdRng::seed_from_u64(7);
    let pk = Groth16::<Bn254, CircomQap>::generate_random_parameters_with_reduction(
        MultiplyCircuit { a: None, b: None },
        &mut rng,
    )
    .unwrap();
    let pvk = prepare_verifying_key(&pk.vk);
    let a = Fr::from(11u64);
    let b = Fr::from(13u64);
    let c = a * b;
    let proof = Groth16::<Bn254, CircomQap>::create_random_proof_with_reduction(
        MultiplyCircuit {
            a: Some(a),
            b: Some(b),
        },
        &pk,
        &mut rng,
    )
    .unwrap();
    assert!(Groth16::<Bn254, CircomQap>::verify_proof(&pvk, &proof, &[c]).unwrap());
    assert!(!Groth16::<Bn254, CircomQap>::verify_proof(&pvk, &proof, &[a]).unwrap());
}
