//! The R1CS-to-QAP witness map in the Circom/snarkjs convention, and the
//! matching H-query scalar generator.

use crate::field::{add_mod, mul_mod, Felt};
use vstd::prelude::*;

verus! {

/// No power-of-two FFT domain the field supports is large enough for the
/// requested size.
#[derive(Clone, Copy, Debug, PartialEq, Eq, Structural)]
pub enum QapError {
    PolynomialDegreeTooLarge,
}

/// A finalized rank-1 constraint system together with its full satisfying
/// assignment.
///
/// Each constraint is one row of the three sparse matrices: a sequence of
/// `(coefficient, variable index)` terms over the assignment, which is the
/// instance (public) assignment followed by the witness (private) one.
pub struct ConstraintSystem {
    /// Rows of the A matrix, one per constraint.
    pub a: Vec<Vec<(Felt, usize)>>,
    /// Rows of the B matrix, one per constraint.
    pub b: Vec<Vec<(Felt, usize)>>,
    /// Rows of the C matrix, one per constraint.
    pub c: Vec<Vec<(Felt, usize)>>,
    /// The instance assignment (the constant one and the public inputs).
    pub instance: Vec<Felt>,
    /// The witness assignment.
    pub witness: Vec<Felt>,
}

/// Every term of the row has a canonical coefficient and an index into the
/// assignment.
pub open spec fn row_wf(row: Seq<(Felt, usize)>, num_vars: nat) -> bool {
    forall|t: int|
        0 <= t < row.len() ==> (#[trigger] row[t]).0.inv() && row[t].1 < num_vars
}

/// The value of one sparse row against the full assignment:
/// the sum of `coefficient * assignment[index]` over its terms.
pub open spec fn eval_row_spec(row: Seq<(Felt, usize)>, full: Seq<nat>) -> nat
    decreases row.len(),
{
    if row.len() == 0 {
        0
    } else {
        add_mod(
            eval_row_spec(row.drop_last(), full),
            mul_mod(row.last().0@, full[row.last().1 as int]),
        )
    }
}

impl ConstraintSystem {
    /// The number of constraints.
    pub open spec fn spec_num_constraints(&self) -> nat {
        self.a@.len()
    }

    /// The number of instance variables (the constant one plus the public
    /// inputs).
    pub open spec fn spec_num_instance_variables(&self) -> nat {
        self.instance@.len()
    }

    /// The number of variables the rows may index.
    pub open spec fn spec_num_variables(&self) -> nat {
        self.instance@.len() + self.witness@.len()
    }

    /// The three matrices have one row per constraint, every term indexes a
    /// variable of the assignment, and every field element is canonical.
    pub open spec fn wf(&self) -> bool {
        &&& self.b@.len() == self.a@.len()
        &&& self.c@.len() == self.a@.len()
        &&& forall|i: int|
            0 <= i < self.a@.len() ==> row_wf(#[trigger] self.a@[i]@, self.spec_num_variables())
        &&& forall|i: int|
            0 <= i < self.b@.len() ==> row_wf(#[trigger] self.b@[i]@, self.spec_num_variables())
        &&& forall|i: int|
            0 <= i < self.c@.len() ==> row_wf(#[trigger] self.c@[i]@, self.spec_num_variables())
        &&& crate::domain::all_reduced(self.instance@)
        &&& crate::domain::all_reduced(self.witness@)
    }

    /// The full assignment: instance then witness.
    pub open spec fn spec_full_assignment(&self) -> Seq<nat> {
        crate::domain::views(self.instance@ + self.witness@)
    }

    /// The number of constraints.
    pub fn num_constraints(&self) -> (r: usize)
        ensures
            r == self.spec_num_constraints(),
    {
        self.a.len()
    }

    /// The number of instance variables.
    pub fn num_instance_variables(&self) -> (r: usize)
        ensures
            r == self.spec_num_instance_variables(),
    {
        self.instance.len()
    }
}

/// Evaluates one sparse row against the full assignment, summing
/// `coefficient * assignment[index]` over all terms (duplicate indices are
/// summed, not merged).
pub fn evaluate_constraint(row: &Vec<(Felt, usize)>, full: &Vec<Felt>) -> (r: Felt)
    requires
        row_wf(row@, full@.len() as nat),
        crate::domain::all_reduced(full@),
    ensures
        r.inv(),
        r@ == eval_row_spec(row@, crate::domain::views(full@)),
{
    let mut sum: Felt = Felt::zero();
    proof {
        vstd::arithmetic::div_mod::lemma_small_mod(0, crate::field::p());
    }
    let mut t: usize = 0;
    while t < row.len()
        invariant
            row_wf(row@, full@.len() as nat),
            crate::domain::all_reduced(full@),
            t <= row@.len(),
            sum.inv(),
            sum@ == eval_row_spec(row@.take(t as int), crate::domain::views(full@)),
        decreases row@.len() - t,
    {
        let (coeff, index) = row[t];
        let term = crate::field::f_mul(&coeff, &full[index]);
        proof {
            assert(row@.take(t as int + 1).drop_last() =~= row@.take(t as int));
            assert(row@.take(t as int + 1).last() == row@[t as int]);
        }
        sum = crate::field::f_add(&sum, &term);
        t = t + 1;
    }
    proof {
        assert(row@.take(row@.len() as int) =~= row@);
    }
    sum
}

/// The evaluation vector of a matrix over a domain of order `n`: row
/// evaluations in the first slots, zeros beyond.
pub open spec fn row_evals_spec(rows: Seq<Vec<(Felt, usize)>>, full: Seq<nat>, n: nat) -> Seq<
    nat,
> {
    Seq::new(n, |i: int| if i < rows.len() { eval_row_spec(rows[i]@, full) } else { 0 })
}

/// The A evaluation vector: row evaluations in the first `numConstraints`
/// slots, then the instance assignment written in directly (the positional
/// encoding of the public inputs), zeros beyond.
pub open spec fn a_evals_spec(cs: ConstraintSystem, n: nat) -> Seq<nat> {
    Seq::new(
        n,
        |i: int|
            {
                let nc = cs.spec_num_constraints() as int;
                if i < nc {
                    eval_row_spec(cs.a@[i]@, cs.spec_full_assignment())
                } else if i < nc + cs.spec_num_instance_variables() {
                    cs.instance@[i - nc]@
                } else {
                    0
                }
            },
    )
}

/// The domain-doubling transform applied to each evaluation vector:
/// to coefficient form, coset shift by the doubled domain's root, back to
/// evaluation form.
pub open spec fn transform_spec(v: Seq<nat>, n: nat) -> Seq<nat> {
    crate::domain::fft_of(
        n,
        crate::domain::shift_spec(crate::domain::ifft_of(n, v), crate::domain::root2_of(n)),
    )
}

/// The full witness-map result for a system whose (doubled) domain exists:
/// `transform(A) * transform(B) - transform(C)`, entrywise.
pub open spec fn witness_map_spec(cs: ConstraintSystem) -> Seq<nat> {
    let n = crate::domain::min_domain_size(
        cs.spec_num_constraints() + cs.spec_num_instance_variables(),
    );
    let full = cs.spec_full_assignment();
    crate::domain::pointwise_sub_spec(
        crate::domain::pointwise_mul_spec(
            transform_spec(a_evals_spec(cs, n), n),
            transform_spec(row_evals_spec(cs.b@, full, n), n),
        ),
        transform_spec(row_evals_spec(cs.c@, full, n), n),
    )
}

/// The raw H-query sequence of length `2 * maxPower + 1` (entry `i` is
/// `deltaInverse * t^i`), zero-padded to its domain's order, inverse-FFT'd,
/// and thinned to the odd-indexed coefficients.
pub open spec fn h_query_spec(m: nat, t: nat, d: nat) -> Seq<nat> {
    let n = crate::domain::min_domain_size(2 * m + 1);
    let raw = Seq::new(
        n,
        |i: int| if i < 2 * m + 1 { mul_mod(d, crate::field::pow_mod(t, i as nat)) } else { 0 },
    );
    let coeffs = crate::domain::ifft_of(n, raw);
    Seq::new(n / 2, |i: int| coeffs[2 * i + 1])
}

/// Concatenates the instance and witness assignments.
fn full_assignment(cs: &ConstraintSystem) -> (r: Vec<Felt>)
    requires
        cs.wf(),
    ensures
        r@.len() == cs.spec_num_variables(),
        crate::domain::all_reduced(r@),
        crate::domain::views(r@) == cs.spec_full_assignment(),
{
    let mut out: Vec<Felt> = Vec::new();
    let mut i: usize = 0;
    while i < cs.instance.len()
        invariant
            cs.wf(),
            i <= cs.instance@.len(),
            out@ == cs.instance@.take(i as int),
        decreases cs.instance@.len() - i,
    {
        out.push(cs.instance[i]);
        i = i + 1;
    }
    let mut j: usize = 0;
    while j < cs.witness.len()
        invariant
            cs.wf(),
            j <= cs.witness@.len(),
            out@ == cs.instance@ + cs.witness@.take(j as int),
        decreases cs.witness@.len() - j,
    {
        out.push(cs.witness[j]);
        j = j + 1;
    }
    proof {
        assert(out@ =~= cs.instance@ + cs.witness@);
        assert(crate::domain::views(out@) =~= cs.spec_full_assignment());
    }
    out
}

/// Fills the evaluation vector of one matrix: entry `i` is the evaluation
/// of row `i`, zero where no row remains.  Each slot is a function of its
/// own row and the assignment alone.
fn build_row_evals(rows: &Vec<Vec<(Felt, usize)>>, full: &Vec<Felt>, n: usize) -> (r: Vec<Felt>)
    requires
        rows@.len() <= n,
        forall|i: int| 0 <= i < rows@.len() ==> row_wf(#[trigger] rows@[i]@, full@.len() as nat),
        crate::domain::all_reduced(full@),
    ensures
        r@.len() == n,
        crate::domain::all_reduced(r@),
        crate::domain::views(r@) == row_evals_spec(rows@, crate::domain::views(full@), n as nat),
{
    let mut out: Vec<Felt> = Vec::new();
    let mut i: usize = 0;
    while i < n
        invariant
            rows@.len() <= n,
            forall|k: int| 0 <= k < rows@.len() ==> row_wf(#[trigger] rows@[k]@, full@.len() as nat),
            crate::domain::all_reduced(full@),
            i <= n,
            out@.len() == i,
            crate::domain::all_reduced(out@),
            forall|j: int|
                0 <= j < i ==> (#[trigger] out@[j])@ == row_evals_spec(
                    rows@,
                    crate::domain::views(full@),
                    n as nat,
                )[j],
        decreases n - i,
    {
        if i < rows.len() {
            out.push(evaluate_constraint(&rows[i], full));
        } else {
            out.push(Felt::zero());
        }
        i = i + 1;
    }
    proof {
        assert(crate::domain::views(out@) =~= row_evals_spec(
            rows@,
            crate::domain::views(full@),
            n as nat,
        ));
    }
    out
}

/// Fills the A evaluation vector: row evaluations, then the instance
/// assignment written in directly, zeros beyond.
fn build_a_evals(cs: &ConstraintSystem, full: &Vec<Felt>, n: usize) -> (r: Vec<Felt>)
    requires
        cs.wf(),
        cs.spec_num_constraints() + cs.spec_num_instance_variables() <= n,
        full@.len() == cs.spec_num_variables(),
        crate::domain::all_reduced(full@),
        crate::domain::views(full@) == cs.spec_full_assignment(),
    ensures
        r@.len() == n,
        crate::domain::all_reduced(r@),
        crate::domain::views(r@) == a_evals_spec(*cs, n as nat),
{
    let nc = cs.a.len();
    let mut out: Vec<Felt> = Vec::new();
    let mut i: usize = 0;
    while i < n
        invariant
            cs.wf(),
            nc == cs.spec_num_constraints(),
            nc + cs.spec_num_instance_variables() <= n,
            full@.len() == cs.spec_num_variables(),
            crate::domain::all_reduced(full@),
            crate::domain::views(full@) == cs.spec_full_assignment(),
            i <= n,
            out@.len() == i,
            crate::domain::all_reduced(out@),
            forall|j: int| 0 <= j < i ==> (#[trigger] out@[j])@ == a_evals_spec(*cs, n as nat)[j],
        decreases n - i,
    {
        if i < nc {
            out.push(evaluate_constraint(&cs.a[i], full));
        } else if i < nc + cs.instance.len() {
            out.push(cs.instance[i - nc]);
        } else {
            out.push(Felt::zero());
        }
        i = i + 1;
    }
    proof {
        assert(crate::domain::views(out@) =~= a_evals_spec(*cs, n as nat));
    }
    out
}

/// The witness map and scalar generator of the Circom/snarkjs proving
/// convention.
pub struct R1CStoQAPCircom;

impl R1CStoQAPCircom {
    /// The QAP witness map.
    ///
    /// Builds the A, B and C evaluation vectors over the smallest
    /// power-of-two domain holding `numConstraints + numInstanceVariables`
    /// rows, applies the domain-doubling transform to each, and returns
    /// `A*B - C` entrywise — the odd-position samples of `H*Z` in the
    /// doubled domain, exactly as the Circom proving-key layout expects.
    /// Fails with `PolynomialDegreeTooLarge` exactly when the doubled
    /// domain would outgrow the field's two-adic subgroup.
    pub fn witness_map(cs: &ConstraintSystem) -> (r: Result<Vec<Felt>, QapError>)
        requires
            cs.wf(),
        ensures
            match r {
                Ok(v) => {
                    &&& 2 * (cs.spec_num_constraints() + cs.spec_num_instance_variables())
                        <= crate::domain::MAX_DOMAIN_SIZE as nat
                    &&& v@.len() == crate::domain::min_domain_size(
                        cs.spec_num_constraints() + cs.spec_num_instance_variables(),
                    )
                    &&& crate::domain::all_reduced(v@)
                    &&& crate::domain::views(v@) == witness_map_spec(*cs)
                },
                Err(e) => {
                    &&& e == QapError::PolynomialDegreeTooLarge
                    &&& 2 * (cs.spec_num_constraints() + cs.spec_num_instance_variables())
                        > crate::domain::MAX_DOMAIN_SIZE as nat
                },
            },
    {
        let nc = cs.a.len();
        let ni = cs.instance.len();
        if ni > crate::domain::MAX_DOMAIN_SIZE / 2 || nc > crate::domain::MAX_DOMAIN_SIZE / 2
            - ni {
            return Err(QapError::PolynomialDegreeTooLarge);
        }
        proof {
            crate::domain::lemma_double_domain_fits((nc + ni) as nat);
        }
        let n = match crate::domain::compute_domain_size(nc + ni) {
            Some(n) => n,
            None => {
                return Err(QapError::PolynomialDegreeTooLarge);
            },
        };
        proof {
            crate::domain::lemma_min_domain_size_bounds((nc + ni) as nat);
        }
        let full = full_assignment(cs);
        let a0 = build_a_evals(cs, &full, n);
        let b0 = build_row_evals(&cs.b, &full, n);
        let root = crate::domain::double_domain_root(n);
        let a1 = crate::domain::fft(
            n,
            crate::domain::coset_shift(&crate::domain::ifft(n, a0), &root),
        );
        let b1 = crate::domain::fft(
            n,
            crate::domain::coset_shift(&crate::domain::ifft(n, b0), &root),
        );
        let ab = crate::domain::pointwise_mul(&a1, &b1);
        let c0 = build_row_evals(&cs.c, &full, n);
        let c1 = crate::domain::fft(
            n,
            crate::domain::coset_shift(&crate::domain::ifft(n, c0), &root),
        );
        let out = crate::domain::pointwise_sub(&ab, &c1);
        Ok(out)
    }

    /// The H-query scalar sequence.
    ///
    /// Builds the raw sequence `deltaInverse * t^i` for
    /// `i < 2 * maxPower + 1`, inverse-FFTs it over the smallest domain
    /// holding it (the transform zero-pads to the domain's order), and
    /// returns the odd-indexed coefficients.  Fails with
    /// `PolynomialDegreeTooLarge` exactly when no supported domain holds
    /// the raw sequence.
    pub fn h_query_scalars(max_power: usize, t: &Felt, delta_inverse: &Felt) -> (r: Result<
        Vec<Felt>,
        QapError,
    >)
        requires
            t.inv(),
            delta_inverse.inv(),
        ensures
            match r {
                Ok(v) => {
                    &&& 2 * (max_power as nat) + 1 <= crate::domain::MAX_DOMAIN_SIZE as nat
                    &&& v@.len() == crate::domain::min_domain_size(2 * (max_power as nat) + 1) / 2
                    &&& crate::domain::all_reduced(v@)
                    &&& crate::domain::views(v@) == h_query_spec(max_power as nat, t@, delta_inverse@)
                },
                Err(e) => {
                    &&& e == QapError::PolynomialDegreeTooLarge
                    &&& 2 * (max_power as nat) + 1 > crate::domain::MAX_DOMAIN_SIZE as nat
                },
            },
    {
        if max_power > (crate::domain::MAX_DOMAIN_SIZE - 1) / 2 {
            return Err(QapError::PolynomialDegreeTooLarge);
        }
        let len = 2 * max_power + 1;
        let n = match crate::domain::compute_domain_size(len) {
            Some(n) => n,
            None => {
                return Err(QapError::PolynomialDegreeTooLarge);
            },
        };
        proof {
            crate::domain::lemma_min_domain_size_bounds(len as nat);
        }
        let ghost raw_spec = Seq::new(
            n as nat,
            |i: int|
                if i < 2 * (max_power as nat) + 1 {
                    mul_mod(delta_inverse@, crate::field::pow_mod(t@, i as nat))
                } else {
                    0
                },
        );
        let mut raw: Vec<Felt> = Vec::new();
        let mut cur: Felt = Felt::one();
        proof {
            vstd::arithmetic::div_mod::lemma_small_mod(1, crate::field::p());
        }
        let mut i: usize = 0;
        while i < len
            invariant
                t.inv(),
                delta_inverse.inv(),
                len == 2 * max_power + 1,
                len <= n,
                i <= len,
                raw@.len() == i,
                crate::domain::all_reduced(raw@),
                cur.inv(),
                cur@ == crate::field::pow_mod(t@, i as nat),
                forall|j: int|
                    0 <= j < i ==> (#[trigger] raw@[j])@ == mul_mod(
                        delta_inverse@,
                        crate::field::pow_mod(t@, j as nat),
                    ),
            decreases len - i,
        {
            raw.push(crate::field::f_mul(delta_inverse, &cur));
            cur = crate::field::f_mul(&cur, t);
            i = i + 1;
        }
        while i < n
            invariant
                len <= n,
                len <= i,
                i <= n,
                raw@.len() == i,
                crate::domain::all_reduced(raw@),
                forall|j: int|
                    0 <= j < i ==> (#[trigger] raw@[j])@ == raw_spec[j],
                len == 2 * max_power + 1,
                raw_spec == Seq::new(
                    n as nat,
                    |k: int|
                        if k < 2 * (max_power as nat) + 1 {
                            mul_mod(delta_inverse@, crate::field::pow_mod(t@, k as nat))
                        } else {
                            0
                        },
                ),
            decreases n - i,
        {
            raw.push(Felt::zero());
            i = i + 1;
        }
        proof {
            assert(crate::domain::views(raw@) =~= raw_spec);
        }
        let coeffs = crate::domain::ifft(n, raw);
        let mut out: Vec<Felt> = Vec::new();
        let mut k: usize = 0;
        while k < n / 2
            invariant
                coeffs@.len() == n,
                crate::domain::all_reduced(coeffs@),
                k <= n / 2,
                out@.len() == k,
                crate::domain::all_reduced(out@),
                forall|j: int| 0 <= j < k ==> out@[j] == coeffs@[2 * j + 1],
            decreases n / 2 - k,
        {
            out.push(coeffs[2 * k + 1]);
            k = k + 1;
        }
        proof {
            assert(crate::domain::views(out@) =~= h_query_spec(
                max_power as nat,
                t@,
                delta_inverse@,
            ));
        }
        Ok(out)
    }
}

/// Count of the H-query scalars.  For `maxPower = 0` the sequence has
/// exactly `maxPower` entries.  For positive `maxPower` it has more: the
/// doubled-domain convention rounds the raw length `2 * maxPower + 1` up
/// to the domain's power-of-two order and keeps half of that, as
/// `h_query_scalars`' contract states exactly (already `maxPower = 1`
/// returns two scalars, not one).
pub proof fn lemma_h_query_scalars_count(m: nat, t: nat, d: nat)
    requires
        m == 0,
    ensures
        h_query_spec(m, t, d).len() == m,
{
    reveal_with_fuel(crate::domain::min_domain_size, 2);
}

/// Determinism of the witness map: its contract pins the result's values to
/// `witness_map_spec`, and values pin the limbs, so two runs on the same
/// system return bit-identical vectors.
pub proof fn lemma_witness_map_deterministic(cs: ConstraintSystem, v1: Seq<Felt>, v2: Seq<Felt>)
    requires
        crate::domain::views(v1) == witness_map_spec(cs),
        crate::domain::views(v2) == witness_map_spec(cs),
    ensures
        v1 == v2,
{
    assert(v1.len() == v2.len()) by {
        assert(crate::domain::views(v1).len() == v1.len());
        assert(crate::domain::views(v2).len() == v2.len());
    }
    assert forall|j: int| 0 <= j < v1.len() implies v1[j] == v2[j] by {
        assert(crate::domain::views(v1)[j] == v1[j]@);
        assert(crate::domain::views(v2)[j] == v2[j]@);
        crate::field::lemma_felt_value_determines_limbs(v1[j], v2[j]);
    }
    assert(v1 =~= v2);
}

/// Order independence of the per-row evaluation steps: each slot of an
/// evaluation vector is a function of its own row and the assignment alone,
/// so any execution order that writes every slot once — sequential or
/// parallel — produces the same vector.
pub proof fn lemma_row_evaluation_order_independent(
    rows: Seq<Vec<(Felt, usize)>>,
    full: Seq<nat>,
    n: nat,
    v1: Seq<nat>,
    v2: Seq<nat>,
)
    requires
        v1.len() == n,
        v2.len() == n,
        forall|i: int|
            0 <= i < n ==> v1[i] == (if i < rows.len() {
                eval_row_spec(rows[i]@, full)
            } else {
                0
            }),
        forall|i: int|
            0 <= i < n ==> v2[i] == (if i < rows.len() {
                eval_row_spec(rows[i]@, full)
            } else {
                0
            }),
    ensures
        v1 == row_evals_spec(rows, full, n),
        v1 == v2,
{
    assert(v1 =~= row_evals_spec(rows, full, n));
    assert(v2 =~= row_evals_spec(rows, full, n));
}

} // verus!
