use vstd::prelude::*;

verus! {

/// The ways an operation of this library can fail.
#[derive(Clone, Copy, Debug, PartialEq, Eq, Structural)]
pub enum MerkleError {
    /// The entropy used as an HMAC key was empty.
    KeyError,
    /// A value cannot be given a canonical encoding.
    SerializationError,
    /// A tree was asked for with no leaves.
    EmptyTree,
    /// A leaf position lies beyond the end of the tree.
    IndexOutOfRange,
    /// No data block carries the requested label.
    LabelNotFound,
    /// A proof's length cannot lead from the leaf to the root.
    ProofLengthMismatch,
}

} // verus!
