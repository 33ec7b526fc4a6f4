//! Password-less authentication with the Chaum-Pedersen zero-knowledge proof.
//!
//! A prover shows knowledge of a discrete-logarithm secret `x` behind a pair
//! of commitments without revealing it, and a verifier checks the proof.  The
//! crate provides the arithmetic of the proof itself and the verifier-side
//! service that sequences registration, challenge creation and verification.

pub mod bignum;
pub mod engine;
pub mod hexcode;
pub mod proofs;
pub mod store;
pub mod auth;
