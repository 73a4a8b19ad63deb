//! Hash-time-locked atomic swaps.
//!
//! A sender commits resources against a 256-bit hashed proof and a target
//! account.  The target unlocks the resources by revealing the proof; if the
//! swap stays unclaimed past a deadline, the sender may reclaim them.
//!
//! * [`swap::Module`] drives the lifecycle: `create_swap`, `claim_swap`,
//!   `cancel_swap`.
//! * [`action::SwapAction`] is the capability contract that moves resources;
//!   [`action::BalanceSwapAction`] is the balance-transfer instance over
//!   [`ledger::Ledger`].
//! * [`store::PendingSwaps`] keeps the outstanding swap records.
//! * [`laws`] states and proves the lifecycle guarantees.

mod lookup;

pub mod action;
pub mod errors;
pub mod laws;
pub mod ledger;
pub mod store;
pub mod swap;
