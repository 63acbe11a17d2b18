//! Power-of-two FFT evaluation domains.
//!
//! The witness map works over the smallest multiplicative subgroup of the
//! field whose power-of-two order is at least the number of rows it needs.
//! Choosing that order is plain integer logic and is verified here; the
//! transforms between coefficient and evaluation form, and the root of
//! unity of the doubled domain, are performed by the external algebra
//! library behind the trusted wrappers at the end of this file.

use ark_poly::EvaluationDomain;

use crate::field::{mul_mod, pow_mod, Felt};
use vstd::prelude::*;

verus! {

/// The order of the largest power-of-two subgroup of the field: 2^28, the
/// two-adicity of `p - 1`.
pub const MAX_DOMAIN_SIZE: usize = 0x1000_0000;

/// `n` is a power of two.
pub open spec fn is_pow2(n: nat) -> bool
    decreases n,
{
    if n == 0 {
        false
    } else if n == 1 {
        true
    } else {
        n % 2 == 0 && is_pow2(n / 2)
    }
}

/// The smallest power of two that is at least `n` (and at least 1).
pub open spec fn min_domain_size(n: nat) -> nat
    decreases n,
{
    if n <= 1 {
        1
    } else {
        2 * min_domain_size((n + 1) / 2)
    }
}

/// `n` is an order the field supports as an FFT domain.
pub open spec fn is_domain_size(n: nat) -> bool {
    is_pow2(n) && n <= MAX_DOMAIN_SIZE as nat
}

/// `min_domain_size(n)` is a power of two, is at least `n`, and (for
/// positive `n`) lies below `2 * n`.
pub proof fn lemma_min_domain_size_bounds(n: nat)
    ensures
        is_pow2(min_domain_size(n)),
        min_domain_size(n) >= n,
        min_domain_size(n) >= 1,
        n >= 1 ==> min_domain_size(n) < 2 * n,
    decreases n,
{
    if n > 1 {
        lemma_min_domain_size_bounds((n + 1) / 2);
    }
}

/// No smaller power of two reaches `n`: every power of two at least `n` is
/// at least `min_domain_size(n)`.
pub proof fn lemma_min_domain_size_least(n: nat, m: nat)
    requires
        is_pow2(m),
        m >= n,
    ensures
        m >= min_domain_size(n),
    decreases n,
{
    if n > 1 {
        lemma_min_domain_size_least((n + 1) / 2, m / 2);
    }
}

/// Distinct powers of two are at least a factor of two apart.
pub proof fn lemma_pow2_gap(a: nat, b: nat)
    requires
        is_pow2(a),
        is_pow2(b),
        a < b,
    ensures
        2 * a <= b,
    decreases b,
{
    if a > 1 {
        lemma_pow2_gap(a / 2, b / 2);
    }
}

/// The largest supported domain order is itself a power of two.
pub proof fn lemma_max_domain_size_is_pow2()
    ensures
        is_pow2(MAX_DOMAIN_SIZE as nat),
{
    reveal_with_fuel(is_pow2, 30);
}

/// A power of two that reaches `n` and whose half does not is the smallest
/// one.
pub proof fn lemma_min_domain_size_unique(n: nat, s: nat)
    requires
        is_pow2(s),
        s >= n,
        s == 1 || s < 2 * n,
    ensures
        s == min_domain_size(n),
{
    lemma_min_domain_size_bounds(n);
    lemma_min_domain_size_least(n, s);
    if s != min_domain_size(n) {
        lemma_pow2_gap(min_domain_size(n), s);
    }
}

/// When `n` is at most half the largest supported order, the doubled
/// domain of `n`'s own domain is still supported.
pub proof fn lemma_double_domain_fits(n: nat)
    requires
        2 * n <= MAX_DOMAIN_SIZE as nat,
    ensures
        2 * min_domain_size(n) <= MAX_DOMAIN_SIZE as nat,
{
    reveal_with_fuel(is_pow2, 30);
    lemma_min_domain_size_least(n, (MAX_DOMAIN_SIZE / 2) as nat);
}

/// The order of the domain the witness map will use for `n` rows: the
/// smallest power of two at least `n`, or `None` when even the largest
/// supported domain falls short.
pub fn compute_domain_size(n: usize) -> (r: Option<usize>)
    ensures
        match r {
            Some(s) => s as nat == min_domain_size(n as nat) && is_domain_size(s as nat),
            None => n as nat > MAX_DOMAIN_SIZE as nat,
        },
{
    if n > MAX_DOMAIN_SIZE {
        proof {
            lemma_min_domain_size_bounds(n as nat);
        }
        return None;
    }
    let mut s: usize = 1;
    while s < n
        invariant
            is_pow2(s as nat),
            s <= MAX_DOMAIN_SIZE,
            n <= MAX_DOMAIN_SIZE,
            s == 1 || (s as nat) < 2 * (n as nat),
        decreases MAX_DOMAIN_SIZE - s,
    {
        proof {
            lemma_max_domain_size_is_pow2();
            lemma_pow2_gap(s as nat, MAX_DOMAIN_SIZE as nat);
        }
        s = s * 2;
    }
    proof {
        lemma_min_domain_size_unique(n as nat, s as nat);
    }
    Some(s)
}

/// The views of a sequence of field elements.
pub open spec fn views(v: Seq<Felt>) -> Seq<nat> {
    v.map_values(|f: Felt| f@)
}

/// Every element of the sequence is canonical.
pub open spec fn all_reduced(v: Seq<Felt>) -> bool {
    forall|i: int| 0 <= i < v.len() ==> (#[trigger] v[i]).inv()
}

/// What the inverse FFT over the radix-2 domain of order `n` returns.
pub uninterp spec fn ifft_of(n: nat, v: Seq<nat>) -> Seq<nat>;

/// What the forward FFT over the radix-2 domain of order `n` returns.
pub uninterp spec fn fft_of(n: nat, v: Seq<nat>) -> Seq<nat>;

/// The first power of the generator of the radix-2 domain of order `2 * n`.
pub uninterp spec fn root2_of(n: nat) -> nat;

/// Relies on `ark_poly::EvaluationDomain::ifft_in_place` over
/// `ark_poly::Radix2EvaluationDomain`: the inverse FFT is a function of the
/// domain order and the input alone, and hands back one canonical element
/// per domain point.
#[verifier::external_body]
pub(crate) fn ifft(n: usize, v: Vec<Felt>) -> (r: Vec<Felt>)
    requires
        is_domain_size(n as nat),
        v@.len() == n,
        all_reduced(v@),
    ensures
        r@.len() == n,
        all_reduced(r@),
        views(r@) == ifft_of(n as nat, views(v@)),
{
    let d = ark_poly::Radix2EvaluationDomain::<ark_bn254::Fr>::new(n).unwrap();
    let mut w: Vec<ark_bn254::Fr> = v
        .iter()
        .map(|f| ark_bn254::Fr::from(ark_ff::BigInt([f.l0, f.l1, f.l2, f.l3])))
        .collect();
    ark_poly::EvaluationDomain::ifft_in_place(&d, &mut w);
    w.iter()
        .map(|x| {
            let l = ark_ff::PrimeField::into_bigint(*x).0;
            Felt { l0: l[0], l1: l[1], l2: l[2], l3: l[3] }
        })
        .collect()
}

/// Relies on `ark_poly::EvaluationDomain::fft_in_place` over
/// `ark_poly::Radix2EvaluationDomain`: the forward FFT is a function of the
/// domain order and the input alone, and hands back one canonical element
/// per domain point.
#[verifier::external_body]
pub(crate) fn fft(n: usize, v: Vec<Felt>) -> (r: Vec<Felt>)
    requires
        is_domain_size(n as nat),
        v@.len() == n,
        all_reduced(v@),
    ensures
        r@.len() == n,
        all_reduced(r@),
        views(r@) == fft_of(n as nat, views(v@)),
{
    let d = ark_poly::Radix2EvaluationDomain::<ark_bn254::Fr>::new(n).unwrap();
    let mut w: Vec<ark_bn254::Fr> = v
        .iter()
        .map(|f| ark_bn254::Fr::from(ark_ff::BigInt([f.l0, f.l1, f.l2, f.l3])))
        .collect();
    ark_poly::EvaluationDomain::fft_in_place(&d, &mut w);
    w.iter()
        .map(|x| {
            let l = ark_ff::PrimeField::into_bigint(*x).0;
            Felt { l0: l[0], l1: l[1], l2: l[2], l3: l[3] }
        })
        .collect()
}

/// Relies on `ark_poly::EvaluationDomain::element` over
/// `ark_poly::Radix2EvaluationDomain`: the first power of the generator of
/// the domain of order `2 * n` is a canonical element determined by that
/// order alone.
#[verifier::external_body]
pub(crate) fn double_domain_root(n: usize) -> (r: Felt)
    requires
        is_domain_size(n as nat),
        2 * n as nat <= MAX_DOMAIN_SIZE as nat,
    ensures
        r.inv(),
        r@ == root2_of(n as nat),
{
    let d = ark_poly::Radix2EvaluationDomain::<ark_bn254::Fr>::new(2 * n).unwrap();
    let g = ark_poly::EvaluationDomain::element(&d, 1);
    let l = ark_ff::PrimeField::into_bigint(g).0;
    Felt { l0: l[0], l1: l[1], l2: l[2], l3: l[3] }
}

/// The coset shift of the domain-doubling trick: entry `k` multiplied by
/// `g^k`.
pub open spec fn shift_spec(v: Seq<nat>, g: nat) -> Seq<nat> {
    Seq::new(v.len(), |k: int| mul_mod(v[k], pow_mod(g, k as nat)))
}

/// Entrywise product of two evaluation vectors.
pub open spec fn pointwise_mul_spec(a: Seq<nat>, b: Seq<nat>) -> Seq<nat> {
    Seq::new(a.len(), |k: int| mul_mod(a[k], b[k]))
}

/// Entrywise difference of two evaluation vectors.
pub open spec fn pointwise_sub_spec(a: Seq<nat>, b: Seq<nat>) -> Seq<nat> {
    Seq::new(a.len(), |k: int| crate::field::sub_mod(a[k], b[k]))
}

/// Multiplies entry `k` of `v` by `g^k`.
pub fn coset_shift(v: &Vec<Felt>, g: &Felt) -> (r: Vec<Felt>)
    requires
        all_reduced(v@),
        g.inv(),
    ensures
        r@.len() == v@.len(),
        all_reduced(r@),
        views(r@) == shift_spec(views(v@), g@),
{
    let mut out: Vec<Felt> = Vec::new();
    let mut cur: Felt = Felt::one();
    proof {
        vstd::arithmetic::div_mod::lemma_small_mod(1, crate::field::p());
    }
    let mut k: usize = 0;
    while k < v.len()
        invariant
            all_reduced(v@),
            g.inv(),
            k <= v@.len(),
            out@.len() == k,
            all_reduced(out@),
            cur.inv(),
            cur@ == pow_mod(g@, k as nat),
            forall|j: int|
                0 <= j < k ==> (#[trigger] out@[j])@ == mul_mod(v@[j]@, pow_mod(g@, j as nat)),
        decreases v@.len() - k,
    {
        out.push(crate::field::f_mul(&v[k], &cur));
        cur = crate::field::f_mul(&cur, g);
        k = k + 1;
    }
    proof {
        assert(views(out@) =~= shift_spec(views(v@), g@));
    }
    out
}

/// Multiplies two evaluation vectors entry by entry.
pub fn pointwise_mul(a: &Vec<Felt>, b: &Vec<Felt>) -> (r: Vec<Felt>)
    requires
        a@.len() == b@.len(),
        all_reduced(a@),
        all_reduced(b@),
    ensures
        r@.len() == a@.len(),
        all_reduced(r@),
        views(r@) == pointwise_mul_spec(views(a@), views(b@)),
{
    let mut out: Vec<Felt> = Vec::new();
    let mut k: usize = 0;
    while k < a.len()
        invariant
            a@.len() == b@.len(),
            all_reduced(a@),
            all_reduced(b@),
            k <= a@.len(),
            out@.len() == k,
            all_reduced(out@),
            forall|j: int| 0 <= j < k ==> (#[trigger] out@[j])@ == mul_mod(a@[j]@, b@[j]@),
        decreases a@.len() - k,
    {
        out.push(crate::field::f_mul(&a[k], &b[k]));
        k = k + 1;
    }
    proof {
        assert(views(out@) =~= pointwise_mul_spec(views(a@), views(b@)));
    }
    out
}

/// Subtracts two evaluation vectors entry by entry.
pub fn pointwise_sub(a: &Vec<Felt>, b: &Vec<Felt>) -> (r: Vec<Felt>)
    requires
        a@.len() == b@.len(),
        all_reduced(a@),
        all_reduced(b@),
    ensures
        r@.len() == a@.len(),
        all_reduced(r@),
        views(r@) == pointwise_sub_spec(views(a@), views(b@)),
{
    let mut out: Vec<Felt> = Vec::new();
    let mut k: usize = 0;
    while k < a.len()
        invariant
            a@.len() == b@.len(),
            all_reduced(a@),
            all_reduced(b@),
            k <= a@.len(),
            out@.len() == k,
            all_reduced(out@),
            forall|j: int|
                0 <= j < k ==> (#[trigger] out@[j])@ == crate::field::sub_mod(a@[j]@, b@[j]@),
        decreases a@.len() - k,
    {
        out.push(crate::field::f_sub(&a[k], &b[k]));
        k = k + 1;
    }
    proof {
        assert(views(out@) =~= pointwise_sub_spec(views(a@), views(b@)));
    }
    out
}

} // verus!
