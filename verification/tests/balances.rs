use atomic_swap::action::{BalanceSwapAction, SwapAction};
use atomic_swap::ledger::Ledger;

#[test]
fn deposit_and_read_back() {
    let mut l = Ledger::new();
    assert_eq!(l.free_balance(7), 0);
    assert!(l.deposit(7, 250));
    assert_eq!(l.free_balance(7), 250);
    assert_eq!(l.reserved_balance(7), 0);
    assert!(l.deposit(7, 50));
    assert_eq!(l.free_balance(7), 300);
}

#[test]
fn deposit_overflow_rejected() {
    let mut l = Ledger::new();
    assert!(l.deposit(7, u64::MAX));
    assert!(!l.deposit(7, 1));
    assert_eq!(l.free_balance(7), u64::MAX);
}

#[test]
fn reserve_needs_funds() {
    let mut l = Ledger::new();
    assert!(l.deposit(7, 100));
    assert!(!l.reserve(7, 101));
    assert_eq!(l.free_balance(7), 100);
    assert!(l.reserve(7, 100));
    assert_eq!(l.free_balance(7), 0);
    assert_eq!(l.reserved_balance(7), 100);
    assert!(!l.reserve(8, 1));
}

#[test]
fn unreserve_is_capped_by_reserve() {
    let mut l = Ledger::new();
    assert!(l.deposit(7, 100));
    assert!(l.reserve(7, 60));
    assert_eq!(l.unreserve(7, 1000), 60);
    assert_eq!(l.free_balance(7), 100);
    assert_eq!(l.reserved_balance(7), 0);
    assert_eq!(l.unreserve(9, 5), 0);
}

#[test]
fn unreserve_is_capped_by_free_headroom() {
    let mut l = Ledger::new();
    assert!(l.deposit(7, u64::MAX));
    assert!(l.reserve(7, 50));
    assert!(l.deposit(7, 50));
    assert_eq!(l.free_balance(7), u64::MAX);
    assert_eq!(l.unreserve(7, 50), 0);
    assert_eq!(l.reserved_balance(7), 50);
}

#[test]
fn repatriate_moves_reserved_funds() {
    let mut l = Ledger::new();
    assert!(l.deposit(1, 100));
    assert!(l.deposit(2, 5));
    assert!(l.reserve(1, 80));
    assert!(l.repatriate_reserved(1, 2, 80));
    assert_eq!(l.reserved_balance(1), 0);
    assert_eq!(l.free_balance(1), 20);
    assert_eq!(l.free_balance(2), 85);
}

#[test]
fn repatriate_needs_reserve_and_target_account() {
    let mut l = Ledger::new();
    assert!(l.deposit(1, 100));
    assert!(l.deposit(2, 5));
    assert!(l.reserve(1, 30));
    assert!(!l.repatriate_reserved(1, 2, 31));
    assert!(!l.repatriate_reserved(1, 9, 30));
    assert_eq!(l.reserved_balance(1), 30);
    assert_eq!(l.free_balance(2), 5);
}

#[test]
fn repatriate_to_self_unlocks_reserve() {
    let mut l = Ledger::new();
    assert!(l.deposit(1, 100));
    assert!(l.reserve(1, 40));
    assert!(l.repatriate_reserved(1, 1, 40));
    assert_eq!(l.free_balance(1), 100);
    assert_eq!(l.reserved_balance(1), 0);
}

#[test]
fn balance_action_reports_its_weight_and_value() {
    let a = BalanceSwapAction::new(123);
    assert_eq!(a.value, 123);
    assert_eq!(a.weight(), 40_000_000);
    assert_eq!(a.weight(), BalanceSwapAction::new(124).weight());
    let b = a.clone_action();
    assert!(a.eq_action(&b));
    assert!(!a.eq_action(&BalanceSwapAction::new(124)));
}
