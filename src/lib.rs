//! Salted Merkle commitments with selective disclosure.
//!
//! A list of labelled values is salted leaf by leaf, hashed, and folded into a
//! single root; any one leaf can later be revealed with a proof that checks
//! against that root alone.
pub mod commit;
pub mod digest;
pub mod error;
pub mod laws;
pub mod leaf;
pub mod tree;
pub mod validation;
pub mod value;
