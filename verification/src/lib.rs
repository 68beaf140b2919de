//! A conditional signature-verification gadget for arithmetic circuits.
//!
//! The crate builds, as purely algebraic constraints over a prime field,
//! the policy "verify a digital signature unless a selector bit defers
//! verification elsewhere".  It provides the boolean wire constraint,
//! the algebraic selector gate, their composition into a verify-or-skip
//! gadget, and the witness-assignment phase, together with proofs of the
//! soundness properties the composition is meant to guarantee.

pub mod field;
pub mod circuit;
pub mod gadgets;
pub mod sig_circuit;
pub mod example_innercircuit;
pub mod sig_gadget;
