use crate::errors::Error;
use crate::ledger::Ledger;
use vstd::prelude::*;

verus! {

/// Definition of a pending atomic swap action, in three phases:
///
/// - **Reserve**: set aside the resources needed for the swap, so that a
///   later claim succeeds with best effort.  Allowed to fail; a failure
///   aborts the whole creation.
/// - **Claim**: move the reserved resources from source to target, reporting
///   whether the transfer succeeded.
/// - **Cancel**: release the reserved resources back to the source.
pub trait SwapAction: Sized {
    /// Whether `reserve` will succeed against this ledger state.
    spec fn can_reserve(&self, ledger: Ledger, source: u64) -> bool;

    /// The error `reserve` reports when it fails.
    spec fn reserve_error(&self) -> Error;

    /// What `claim` will report against this ledger state.
    spec fn claim_outcome(&self, ledger: Ledger, source: u64, target: u64) -> bool;

    /// How a successful `reserve` relates the ledger after the call to the
    /// ledger before it.
    spec fn reserve_post(&self, pre: Ledger, post: Ledger, source: u64) -> bool;

    /// How `claim` relates the ledger after the call to the ledger before
    /// it, whatever it reported.
    spec fn claim_post(&self, pre: Ledger, post: Ledger, source: u64, target: u64) -> bool;

    /// How `cancel` relates the ledger after the call to the ledger before
    /// it.
    spec fn cancel_post(&self, pre: Ledger, post: Ledger, source: u64) -> bool;

    /// Reserve the resources needed for the swap from `source`.  A failure
    /// surfaces this action's own error and leaves the ledger untouched.
    fn reserve(&self, ledger: &mut Ledger, source: u64) -> (r: Result<(), Error>)
        ensures
            r is Ok <==> self.can_reserve(*old(ledger), source),
            r is Ok ==> self.reserve_post(*old(ledger), *final(ledger), source),
            r is Err ==> r == Err::<(), Error>(self.reserve_error()),
            r is Err ==> *final(ledger) == *old(ledger),
    ;

    /// Move the reserved resources from `source` to `target`, reporting
    /// whether the transfer succeeded.
    fn claim(&self, ledger: &mut Ledger, source: u64, target: u64) -> (r: bool)
        ensures
            r == self.claim_outcome(*old(ledger), source, target),
            self.claim_post(*old(ledger), *final(ledger), source, target),
    ;

    /// Release the reserved resources back to `source`; always succeeds.
    fn cancel(&self, ledger: &mut Ledger, source: u64)
        ensures
            self.cancel_post(*old(ledger), *final(ledger), source),
    ;

    /// The cost estimate this action reports: a pure function of the action
    /// value alone.
    spec fn spec_weight(&self) -> u64;

    /// Cost estimate for executing this action, for the caller's resource
    /// accounting: pure and side-effect-free, the same value on every call
    /// for a given action.
    fn weight(&self) -> (r: u64)
        ensures
            r == self.spec_weight(),
    ;

    /// Equality test agreeing with spec-level equality; a claim compares the
    /// supplied action against the stored one with it.
    fn eq_action(&self, other: &Self) -> (r: bool)
        ensures
            r == (*self == *other),
    ;

    /// A copy equal to `self`.
    fn clone_action(&self) -> (r: Self)
        ensures
            r == *self,
    ;
}

/// A swap action that only allows transferring balances: it reserves `value`
/// from the source at creation, repatriates it to the target's free balance
/// on claim, and releases it on cancel.
#[derive(Clone, Copy, Debug, PartialEq, Eq, Structural)]
pub struct BalanceSwapAction {
    /// The amount this action moves.
    pub value: u64,
}

impl BalanceSwapAction {
    /// Create a new swap action value of balance.
    pub fn new(value: u64) -> (a: Self)
        ensures
            a == (BalanceSwapAction { value }),
    {
        BalanceSwapAction { value }
    }
}

impl SwapAction for BalanceSwapAction {
    open spec fn can_reserve(&self, ledger: Ledger, source: u64) -> bool {
        ledger.free_of(source) >= self.value && ledger.reserved_of(source) + self.value
            <= u64::MAX
    }

    open spec fn reserve_error(&self) -> Error {
        Error::ReserveFailed
    }

    open spec fn claim_outcome(&self, ledger: Ledger, source: u64, target: u64) -> bool {
        ledger.reserved_of(source) >= self.value && ledger.has_account(target) && ledger.free_of(
            target,
        ) + self.value <= u64::MAX
    }

    open spec fn reserve_post(&self, pre: Ledger, post: Ledger, source: u64) -> bool {
        &&& post.free_of(source) == pre.free_of(source) - self.value
        &&& post.reserved_of(source) == pre.reserved_of(source) + self.value
        &&& post.has_account(source) == pre.has_account(source)
        &&& forall|w: u64| w != source ==> post.account_of(w) == pre.account_of(w)
    }

    open spec fn claim_post(&self, pre: Ledger, post: Ledger, source: u64, target: u64) -> bool {
        if self.claim_outcome(pre, source, target) {
            &&& post.reserved_of(source) == pre.reserved_of(source) - self.value
            &&& post.free_of(target) == pre.free_of(target) + self.value
            &&& source != target ==> post.free_of(source) == pre.free_of(source)
                && post.reserved_of(target) == pre.reserved_of(target)
            &&& post.has_account(source) == pre.has_account(source)
            &&& post.has_account(target) == pre.has_account(target)
            &&& forall|w: u64|
                w != source && w != target ==> post.account_of(w) == pre.account_of(w)
        } else {
            post == pre
        }
    }

    open spec fn cancel_post(&self, pre: Ledger, post: Ledger, source: u64) -> bool {
        let moved = crate::ledger::unreservable(
            pre.free_of(source),
            pre.reserved_of(source),
            self.value,
        );
        &&& post.free_of(source) == pre.free_of(source) + moved
        &&& post.reserved_of(source) == pre.reserved_of(source) - moved
        &&& post.has_account(source) == pre.has_account(source)
        &&& forall|w: u64| w != source ==> post.account_of(w) == pre.account_of(w)
    }

    fn reserve(&self, ledger: &mut Ledger, source: u64) -> (r: Result<(), Error>) {
        if ledger.reserve(source, self.value) {
            Ok(())
        } else {
            Err(Error::ReserveFailed)
        }
    }

    fn claim(&self, ledger: &mut Ledger, source: u64, target: u64) -> (r: bool) {
        ledger.repatriate_reserved(source, target, self.value)
    }

    fn cancel(&self, ledger: &mut Ledger, source: u64) {
        ledger.unreserve(source, self.value);
    }

    open spec fn spec_weight(&self) -> u64 {
        40_000_000
    }

    fn weight(&self) -> (r: u64) {
        40_000_000
    }

    fn eq_action(&self, other: &Self) -> (r: bool) {
        self.value == other.value
    }

    fn clone_action(&self) -> (r: Self) {
        *self
    }
}

} // verus!
