//! Witness mapping for Groth16 proving in the Circom/snarkjs convention.
//!
//! The quotient-polynomial ("H") term of a Groth16 proof can be encoded in
//! more than one way.  The toolchain that Circom circuits are proved with
//! precomputes the Lagrange form of the powers of tau in a domain of twice
//! the FFT-domain size and expects the witness map to hand back the
//! odd-indexed coefficients of `A*B - C` in that doubled domain, instead of
//! the textbook quotient `(A*B - C)/Z`.  This crate computes that encoding:
//! the per-row constraint evaluation, the QAP witness map built from the
//! R1CS matrices, and the matching H-query scalar sequence used during
//! parameter generation.  Field arithmetic and FFTs are performed by an
//! external algebra library behind narrow trusted wrappers.

pub mod domain;
pub mod field;
pub mod qap;

pub use qap::R1CStoQAPCircom;
