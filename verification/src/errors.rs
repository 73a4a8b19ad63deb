use vstd::prelude::*;

verus! {

/// The ways a swap transaction can be rejected.  Every error aborts its
/// transaction before any state change becomes visible.
#[derive(Clone, Copy, Debug, PartialEq, Eq, Structural)]
pub enum Error {
    /// A swap already exists at the requested (target, hashed proof) key.
    AlreadyExist,
    /// No swap record matches the hash of the revealed proof.
    InvalidProof,
    /// The revealed proof is longer than the configured limit.
    ProofTooLarge,
    /// The canceller is not the account that created the swap.
    SourceMismatch,
    /// The swap was already claimed.
    AlreadyClaimed,
    /// No swap record exists at the given key.
    NotExist,
    /// The action supplied on claim differs from the stored one.
    ClaimActionMismatch,
    /// The swap's deadline has not been reached yet.
    DurationNotPassed,
    /// The action could not reserve the resources at creation.
    ReserveFailed,
}

} // verus!
