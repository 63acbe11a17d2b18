use circom_qap::domain::{compute_domain_size, coset_shift, pointwise_mul, pointwise_sub};
use circom_qap::field::Felt;
use circom_qap::qap::{evaluate_constraint, ConstraintSystem, QapError};
use circom_qap::R1CStoQAPCircom;

fn felts(values: &[u64]) -> Vec<Felt> {
    values.iter().map(|&v| Felt::from_u64(v)).collect()
}

fn single_constraint_system() -> ConstraintSystem {
    // One constraint `x * x = x` over the assignment `[1, x]` with `x = 1`.
    let row = vec![(Felt::one(), 1usize)];
    ConstraintSystem {
        a: vec![row.clone()],
        b: vec![row.clone()],
        c: vec![row],
        instance: vec![Felt::one(), Felt::one()],
        witness: vec![],
    }
}

#[test]
fn domain_size_is_smallest_power_of_two() {
    assert_eq!(compute_domain_size(0), Some(1));
    assert_eq!(compute_domain_size(1), Some(1));
    assert_eq!(compute_domain_size(2), Some(2));
    assert_eq!(compute_domain_size(3), Some(4));
    assert_eq!(compute_domain_size(4), Some(4));
    assert_eq!(compute_domain_size(5), Some(8));
    assert_eq!(compute_domain_size(1 << 28), Some(1 << 28));
}

#[test]
fn domain_size_overflow_is_rejected() {
    assert_eq!(compute_domain_size((1 << 28) + 1), None);
    assert_eq!(compute_domain_size(usize::MAX), None);
}

#[test]
fn evaluate_constraint_sums_terms() {
    let row = vec![(Felt::from_u64(2), 0usize), (Felt::from_u64(3), 1usize)];
    let full = felts(&[5, 7]);
    assert_eq!(evaluate_constraint(&row, &full), Felt::from_u64(31));
}

#[test]
fn evaluate_constraint_keeps_duplicate_indices() {
    let row = vec![(Felt::one(), 0usize), (Felt::one(), 0usize)];
    let full = felts(&[5]);
    assert_eq!(evaluate_constraint(&row, &full), Felt::from_u64(10));
}

#[test]
fn evaluate_constraint_empty_row_is_zero() {
    let row: Vec<(Felt, usize)> = vec![];
    let full = felts(&[5]);
    assert_eq!(evaluate_constraint(&row, &full), Felt::zero());
}

#[test]
fn pointwise_mul_multiplies_entries() {
    let r = pointwise_mul(&felts(&[2, 3]), &felts(&[3, 4]));
    assert_eq!(r, felts(&[6, 12]));
}

#[test]
fn pointwise_sub_subtracts_entries() {
    let r = pointwise_sub(&felts(&[5, 9]), &felts(&[2, 9]));
    assert_eq!(r, felts(&[3, 0]));
}

#[test]
fn pointwise_sub_wraps_around_the_modulus() {
    // 0 - 1 must be p - 1: adding 1 back through a row evaluation gives 0.
    let minus_one = pointwise_sub(&felts(&[0]), &felts(&[1]));
    assert_ne!(minus_one[0], Felt::zero());
    let row = vec![(Felt::one(), 0usize), (Felt::one(), 1usize)];
    let full = vec![minus_one[0], Felt::one()];
    assert_eq!(evaluate_constraint(&row, &full), Felt::zero());
}

#[test]
fn coset_shift_multiplies_by_powers() {
    let r = coset_shift(&felts(&[1, 1, 1]), &Felt::from_u64(2));
    assert_eq!(r, felts(&[1, 2, 4]));
}

#[test]
fn h_query_scalars_lengths_follow_the_doubled_domain() {
    let t = Felt::from_u64(9);
    let d = Felt::one();
    assert_eq!(
        R1CStoQAPCircom::h_query_scalars(0, &t, &d).unwrap().len(),
        0
    );
    assert_eq!(
        R1CStoQAPCircom::h_query_scalars(1, &t, &d).unwrap().len(),
        2
    );
    assert_eq!(
        R1CStoQAPCircom::h_query_scalars(3, &t, &d).unwrap().len(),
        4
    );
    assert_eq!(
        R1CStoQAPCircom::h_query_scalars(7, &t, &d).unwrap().len(),
        8
    );
}

#[test]
fn h_query_scalars_is_deterministic() {
    let t = Felt::from_u64(123456789);
    let d = Felt::from_u64(987654321);
    let first = R1CStoQAPCircom::h_query_scalars(5, &t, &d).unwrap();
    let second = R1CStoQAPCircom::h_query_scalars(5, &t, &d).unwrap();
    assert_eq!(first, second);
}

#[test]
fn h_query_scalars_at_zero_point_are_constant() {
    // With t = 0 the raw sequence is [1, 0, 0, ...], whose Lagrange
    // coefficients are all 1/n: every returned scalar is the same nonzero
    // element (an identity transform would return zeros here).
    let out = R1CStoQAPCircom::h_query_scalars(1, &Felt::zero(), &Felt::one()).unwrap();
    assert_eq!(out.len(), 2);
    assert_ne!(out[0], Felt::zero());
    assert_eq!(out[0], out[1]);
}

#[test]
fn h_query_scalars_overflow_is_degree_too_large() {
    let t = Felt::from_u64(3);
    let d = Felt::one();
    assert_eq!(
        R1CStoQAPCircom::h_query_scalars(usize::MAX, &t, &d),
        Err(QapError::PolynomialDegreeTooLarge)
    );
    assert_eq!(
        R1CStoQAPCircom::h_query_scalars(1 << 27, &t, &d),
        Err(QapError::PolynomialDegreeTooLarge)
    );
}

#[test]
fn witness_map_length_is_the_domain_size() {
    // One constraint and two instance variables need a domain of order 4.
    let cs = single_constraint_system();
    let out = R1CStoQAPCircom::witness_map(&cs).unwrap();
    assert_eq!(out.len(), 4);
}

#[test]
fn witness_map_of_empty_system_has_domain_one() {
    let cs = ConstraintSystem {
        a: vec![],
        b: vec![],
        c: vec![],
        instance: vec![],
        witness: vec![],
    };
    let out = R1CStoQAPCircom::witness_map(&cs).unwrap();
    assert_eq!(out.len(), 1);
}

#[test]
fn witness_map_is_deterministic() {
    let cs = single_constraint_system();
    let first = R1CStoQAPCircom::witness_map(&cs).unwrap();
    let second = R1CStoQAPCircom::witness_map(&cs).unwrap();
    assert_eq!(first, second);
}

#[test]
fn felt_constructors_are_canonical() {
    assert_eq!(Felt::from_u64(0), Felt::zero());
    assert_eq!(Felt::from_u64(1), Felt::one());
    assert_ne!(Felt::zero(), Felt::one());
}
