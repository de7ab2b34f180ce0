use stellarsave::account::AccountId;
use stellarsave::timelock_vault::{Deposit, TimelockVault, VaultError};

const DAY: u64 = 86400;

fn admin() -> AccountId {
    AccountId::account(5, 1)
}

fn token_address() -> AccountId {
    AccountId::contract(5, 2)
}

fn alice() -> AccountId {
    AccountId::account(5, 3)
}

fn bob() -> AccountId {
    AccountId::account(5, 4)
}

#[test]
fn new_vault_is_empty() {
    let vault = TimelockVault::initialize(admin(), token_address());
    assert_eq!(vault.admin, admin());
    assert_eq!(vault.token_address, token_address());
    assert_eq!(vault.get_total_deposits(), 0);
    assert_eq!(vault.get_deposit(alice()), Err(VaultError::DepositNotFound));
    assert!(!vault.can_withdraw(alice(), u64::MAX));
}

#[test]
fn deposit_is_locked_for_the_given_days() {
    let mut vault = TimelockVault::initialize(admin(), token_address());
    assert_eq!(vault.deposit(alice(), 0, 1, 0), Err(VaultError::InvalidAmount));
    assert_eq!(vault.deposit(alice(), -1, 1, 0), Err(VaultError::InvalidAmount));
    assert_eq!(vault.deposit(alice(), 5, 1, u64::MAX), Err(VaultError::ArithmeticError));
    assert_eq!(vault.deposit(alice(), 500, 30, 1000), Ok(()));
    let held = Deposit { user: alice(), amount: 500, lock_time: 1000 + 30 * DAY, withdrawn: false };
    assert_eq!(vault.get_deposit(alice()), Ok(held));
    assert_eq!(vault.get_total_deposits(), 500);
    assert!(!vault.can_withdraw(alice(), 1000 + 30 * DAY - 1));
    assert!(vault.can_withdraw(alice(), 1000 + 30 * DAY));
}

#[test]
fn withdrawal_before_the_lock_runs_out_is_refused() {
    let mut vault = TimelockVault::initialize(admin(), token_address());
    assert_eq!(vault.deposit(alice(), 500, 30, 1000), Ok(()));
    assert_eq!(vault.withdraw(alice(), 1000 + 30 * DAY - 1), Err(VaultError::PositionLocked));
    assert_eq!(vault.withdraw(bob(), 1000 + 30 * DAY), Err(VaultError::DepositNotFound));
    assert_eq!(vault.get_total_deposits(), 500);
    assert_eq!(vault.withdraw(alice(), 1000 + 30 * DAY), Ok(500));
    assert_eq!(vault.get_total_deposits(), 0);
    assert!(vault.get_deposit(alice()).unwrap().withdrawn);
    assert!(!vault.can_withdraw(alice(), u64::MAX));
    assert_eq!(vault.withdraw(alice(), u64::MAX), Err(VaultError::AlreadyWithdrawn));
    assert_eq!(vault.emergency_withdraw(alice()), Err(VaultError::AlreadyWithdrawn));
}

#[test]
fn emergency_withdrawal_bypasses_the_lock() {
    let mut vault = TimelockVault::initialize(admin(), token_address());
    assert_eq!(vault.deposit(alice(), 500, 30, 1000), Ok(()));
    assert_eq!(vault.deposit(bob(), 70, 0, 1000), Ok(()));
    assert_eq!(vault.emergency_withdraw(alice()), Ok(500));
    assert_eq!(vault.get_total_deposits(), 70);
    assert_eq!(vault.emergency_withdraw(admin()), Err(VaultError::DepositNotFound));
    assert_eq!(vault.withdraw(bob(), 1000), Ok(70));
    assert_eq!(vault.get_total_deposits(), 0);
}

#[test]
fn a_new_deposit_takes_the_place_of_the_old() {
    let mut vault = TimelockVault::initialize(admin(), token_address());
    assert_eq!(vault.deposit(alice(), 500, 30, 1000), Ok(()));
    assert_eq!(vault.deposit(alice(), 20, 1, 2000), Ok(()));
    let held = Deposit { user: alice(), amount: 20, lock_time: 2000 + DAY, withdrawn: false };
    assert_eq!(vault.get_deposit(alice()), Ok(held));
    assert_eq!(vault.get_total_deposits(), 520);
    assert_eq!(vault.deposits.entries.len(), 1);
}
