//! Elements of the scalar field of the BN254 pairing curve, the field that
//! Circom circuits are written over.
//!
//! An element is carried as the four little-endian 64-bit limbs of its
//! canonical (fully reduced) value, so that every contract can speak of the
//! element as a plain natural number below the field's prime.  The modular
//! arithmetic itself is done by the external algebra library behind the
//! trusted wrappers at the end of this file.

use vstd::arithmetic::div_mod::lemma_fundamental_div_mod_converse;
use vstd::prelude::*;

verus! {

/// The base the limbs are written in: 2^64.
pub open spec fn b64() -> nat {
    0x1_0000_0000_0000_0000
}

/// The prime order of the BN254 scalar field,
/// 21888242871839275222246405745257275088548364400416034343698204186575808495617,
/// written in base-2^64 limbs.
pub open spec fn p() -> nat {
    0x43e1f593f0000001 + b64() * (0x2833e84879b97091 + b64() * (0xb85045b68181585d + b64()
        * 0x30644e72e131a029))
}

/// Addition in the field: `(x + y) mod p`.
pub open spec fn add_mod(x: nat, y: nat) -> nat {
    (x + y) % p()
}

/// Subtraction in the field: `(x - y) mod p`, stated over naturals as
/// `(x + p - y) mod p` (meaningful whenever `y < p`).
pub open spec fn sub_mod(x: nat, y: nat) -> nat {
    (((x + p()) - y) % (p() as int)) as nat
}

/// Multiplication in the field: `(x * y) mod p`.
pub open spec fn mul_mod(x: nat, y: nat) -> nat {
    (x * y) % p()
}

/// Exponentiation in the field: `b^e mod p`.
pub open spec fn pow_mod(b: nat, e: nat) -> nat
    decreases e,
{
    if e == 0 {
        1nat % p()
    } else {
        mul_mod(pow_mod(b, (e - 1) as nat), b)
    }
}

/// A field element: the canonical little-endian base-2^64 limbs of a value
/// below `p`.
#[derive(Clone, Copy, Debug, PartialEq, Eq, Structural)]
pub struct Felt {
    pub l0: u64,
    pub l1: u64,
    pub l2: u64,
    pub l3: u64,
}

impl View for Felt {
    type V = nat;

    open spec fn view(&self) -> nat {
        (self.l0 + b64() * (self.l1 + b64() * (self.l2 + b64() * self.l3))) as nat
    }
}

impl Felt {
    /// The limbs are those of a fully reduced element.
    pub open spec fn inv(&self) -> bool {
        self@ < p()
    }

    /// The additive identity.
    pub fn zero() -> (r: Felt)
        ensures
            r@ == 0,
            r.inv(),
    {
        Felt { l0: 0, l1: 0, l2: 0, l3: 0 }
    }

    /// The multiplicative identity.
    pub fn one() -> (r: Felt)
        ensures
            r@ == 1,
            r.inv(),
    {
        Felt { l0: 1, l1: 0, l2: 0, l3: 0 }
    }

    /// The element with the value of `x`; exact, since every 64-bit value
    /// lies below `p`.
    pub fn from_u64(x: u64) -> (r: Felt)
        ensures
            r@ == x,
            r.inv(),
    {
        Felt { l0: x, l1: 0, l2: 0, l3: 0 }
    }
}

/// A base-2^64 digit and the rest of the number can be read back from
/// their combination.
proof fn lemma_digit_split(low: u64, rest: int)
    requires
        rest >= 0,
    ensures
        (low + b64() * rest) % (b64() as int) == low,
        (low + b64() * rest) / (b64() as int) == rest,
{
    lemma_fundamental_div_mod_converse(
        low + b64() * rest,
        b64() as int,
        rest,
        low as int,
    );
}

/// The value of a field element determines its limbs: the base-2^64
/// decomposition is unique, so equal values are bit-identical elements.
pub proof fn lemma_felt_value_determines_limbs(x: Felt, y: Felt)
    requires
        x@ == y@,
    ensures
        x == y,
{
    lemma_digit_split(x.l0, x.l1 + b64() * (x.l2 + b64() * x.l3));
    lemma_digit_split(y.l0, y.l1 + b64() * (y.l2 + b64() * y.l3));
    lemma_digit_split(x.l1, x.l2 + b64() * x.l3);
    lemma_digit_split(y.l1, y.l2 + b64() * y.l3);
    lemma_digit_split(x.l2, x.l3 as int);
    lemma_digit_split(y.l2, y.l3 as int);
}

/// Relies on `core::ops::Add` for `ark_bn254::Fr` (field addition modulo the
/// group order) and on `ark_ff::PrimeField::into_bigint` returning the
/// canonical representative.
#[verifier::external_body]
pub(crate) fn f_add(a: &Felt, b: &Felt) -> (r: Felt)
    requires
        a.inv(),
        b.inv(),
    ensures
        r.inv(),
        r@ == add_mod(a@, b@),
{
    let x = ark_bn254::Fr::from(ark_ff::BigInt([a.l0, a.l1, a.l2, a.l3]));
    let y = ark_bn254::Fr::from(ark_ff::BigInt([b.l0, b.l1, b.l2, b.l3]));
    let l = ark_ff::PrimeField::into_bigint(x + y).0;
    Felt { l0: l[0], l1: l[1], l2: l[2], l3: l[3] }
}

/// Relies on `core::ops::Sub` for `ark_bn254::Fr` (field subtraction modulo
/// the group order) and on `ark_ff::PrimeField::into_bigint` returning the
/// canonical representative.
#[verifier::external_body]
pub(crate) fn f_sub(a: &Felt, b: &Felt) -> (r: Felt)
    requires
        a.inv(),
        b.inv(),
    ensures
        r.inv(),
        r@ == sub_mod(a@, b@),
{
    let x = ark_bn254::Fr::from(ark_ff::BigInt([a.l0, a.l1, a.l2, a.l3]));
    let y = ark_bn254::Fr::from(ark_ff::BigInt([b.l0, b.l1, b.l2, b.l3]));
    let l = ark_ff::PrimeField::into_bigint(x - y).0;
    Felt { l0: l[0], l1: l[1], l2: l[2], l3: l[3] }
}

/// Relies on `core::ops::Mul` for `ark_bn254::Fr` (field multiplication
/// modulo the group order) and on `ark_ff::PrimeField::into_bigint`
/// returning the canonical representative.
#[verifier::external_body]
pub(crate) fn f_mul(a: &Felt, b: &Felt) -> (r: Felt)
    requires
        a.inv(),
        b.inv(),
    ensures
        r.inv(),
        r@ == mul_mod(a@, b@),
{
    let x = ark_bn254::Fr::from(ark_ff::BigInt([a.l0, a.l1, a.l2, a.l3]));
    let y = ark_bn254::Fr::from(ark_ff::BigInt([b.l0, b.l1, b.l2, b.l3]));
    let l = ark_ff::PrimeField::into_bigint(x * y).0;
    Felt { l0: l[0], l1: l[1], l2: l[2], l3: l[3] }
}

} // verus!
