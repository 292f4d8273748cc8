use state_machine::balances::Pallet;
use state_machine::support::DispatchError;

#[test]
fn init_balance() {
    let mut balances = Pallet::new();
    assert_eq!(balances.balance(&"alice".to_string()), 0);
    balances.set_balance(&"alice".to_string(), 100);
    assert_eq!(balances.balance(&"alice".to_string()), 100);
    assert_eq!(balances.balance(&"bob".to_string()), 0);
}

#[test]
fn transfer_balance() {
    let alice = "alice".to_string();
    let bob = "bob".to_string();
    let mut balances = Pallet::new();
    balances.set_balance(&alice, 100);
    let _ = balances.transfer(&alice, &bob, 50);
    assert_eq!(balances.balance(&alice), 50);
    assert_eq!(balances.balance(&bob), 50);
}

#[test]
fn transfer_balance_insufficient() {
    let alice = "alice".to_string();
    let bob = "bob".to_string();
    let mut balances = Pallet::new();
    balances.set_balance(&alice, 100);
    let result = balances.transfer(&alice, &bob, 110);
    assert_eq!(result.map_err(|e| e.message()), Err("Insufficient balance"));
    assert_eq!(balances.balance(&alice), 100);
    assert_eq!(balances.balance(&bob), 0);
}

#[test]
fn transfer_balance_overflow() {
    let alice = "alice".to_string();
    let bob = "bob".to_string();
    let mut balances = Pallet::new();
    balances.set_balance(&alice, 100);
    balances.set_balance(&bob, u128::MAX);
    let result = balances.transfer(&alice, &bob, 10);
    assert_eq!(result.map_err(|e| e.message()), Err("Overflow when adding to balance"));
    assert_eq!(balances.balance(&alice), 100);
    assert_eq!(balances.balance(&bob), u128::MAX);
}

#[test]
fn transfer_exact_balance_empties_sender() {
    let alice = "alice".to_string();
    let bob = "bob".to_string();
    let mut balances = Pallet::new();
    balances.set_balance(&alice, 100);
    assert_eq!(balances.transfer(&alice, &bob, 100), Ok(()));
    assert_eq!(balances.balance(&alice), 0);
    assert_eq!(balances.balance(&bob), 100);
}

#[test]
fn transfers_conserve_total() {
    let alice = "alice".to_string();
    let bob = "bob".to_string();
    let charlie = "charlie".to_string();
    let mut balances = Pallet::new();
    balances.set_balance(&alice, 70);
    balances.set_balance(&bob, 30);
    assert_eq!(balances.transfer(&alice, &bob, 25), Ok(()));
    assert_eq!(balances.transfer(&bob, &charlie, 40), Ok(()));
    assert_eq!(balances.transfer(&charlie, &alice, 5), Ok(()));
    let total = balances.balance(&alice) + balances.balance(&bob) + balances.balance(&charlie);
    assert_eq!(total, 100);
    assert_eq!(balances.balance(&alice), 50);
    assert_eq!(balances.balance(&bob), 15);
    assert_eq!(balances.balance(&charlie), 35);
}

#[test]
fn failed_transfer_changes_nothing() {
    let alice = "alice".to_string();
    let bob = "bob".to_string();
    let mut balances = Pallet::new();
    balances.set_balance(&alice, 5);
    balances.set_balance(&bob, 7);
    assert_eq!(balances.transfer(&alice, &bob, 6), Err(DispatchError::InsufficientBalance));
    assert_eq!(balances.balance(&alice), 5);
    assert_eq!(balances.balance(&bob), 7);
}

#[test]
fn transfer_to_self_changes_nothing() {
    let alice = "alice".to_string();
    let mut balances = Pallet::new();
    balances.set_balance(&alice, 10);
    assert_eq!(balances.transfer(&alice, &alice, 4), Ok(()));
    assert_eq!(balances.balance(&alice), 10);
}
