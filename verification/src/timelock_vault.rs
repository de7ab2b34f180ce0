//! A vault that holds one deposit for each user until its lock has run out.

use vstd::prelude::*;
use crate::account::AccountId;
use crate::arith::{fits_i128, DAY_SECONDS};
use crate::table::Table;

verus! {

/// Why an operation on the vault was refused.
#[derive(Clone, Copy, Debug, PartialEq, Eq, Structural)]
pub enum VaultError {
    /// The amount is not positive.
    InvalidAmount,
    /// The user has no deposit.
    DepositNotFound,
    /// The deposit was withdrawn before.
    AlreadyWithdrawn,
    /// The lock of the deposit has not run out.
    PositionLocked,
    /// A result that cannot be held in the integer type of its field.
    ArithmeticError,
}

/// What one user has deposited, and until when it is locked.
#[derive(Clone, Copy, Debug, PartialEq, Eq, Structural)]
pub struct Deposit {
    pub user: AccountId,
    pub amount: i128,
    pub lock_time: u64,
    pub withdrawn: bool,
}

/// The state of the vault.
pub struct TimelockVault {
    pub admin: AccountId,
    pub token_address: AccountId,
    pub deposits: Table<AccountId, Deposit>,
    pub total_deposits: i128,
}

impl TimelockVault {
    /// An empty vault for the token at `token_address`, administered by `admin`.
    pub fn initialize(admin: AccountId, token_address: AccountId) -> (vault: Self)
        ensures
            vault.admin == admin,
            vault.token_address == token_address,
            vault.deposits@ == Map::<AccountId, Deposit>::empty(),
            vault.total_deposits == 0,
    {
        TimelockVault { admin, token_address, deposits: Table::new(), total_deposits: 0 }
    }

    /// Why a deposit is refused, if it is.
    pub open spec fn deposit_refusal(&self, amount: i128, lock_days: u32, now: u64) -> Option<
        VaultError,
    > {
        if amount <= 0 {
            Some(VaultError::InvalidAmount)
        } else if now + lock_days * 86400 > u64::MAX || !fits_i128(self.total_deposits + amount) {
            Some(VaultError::ArithmeticError)
        } else {
            None
        }
    }

    /// Takes a deposit of `amount`, which must be positive, from `user` and
    /// locks it for `lock_days` days from `now`. The deposit takes the place
    /// of the one that the user had before; the total grows by `amount`.
    pub fn deposit(&mut self, user: AccountId, amount: i128, lock_days: u32, now: u64) -> (result:
        Result<(), VaultError>)
        ensures
            match old(self).deposit_refusal(amount, lock_days, now) {
                Some(e) => result == Err::<(), VaultError>(e) && *final(self) == *old(self),
                None => {
                    &&& result is Ok
                    &&& *final(self) == (TimelockVault {
                        deposits: final(self).deposits,
                        total_deposits: (old(self).total_deposits + amount) as i128,
                        ..*old(self)
                    })
                    &&& final(self).deposits@ == old(self).deposits@.insert(
                        user,
                        Deposit {
                            user,
                            amount,
                            lock_time: (now + lock_days * 86400) as u64,
                            withdrawn: false,
                        },
                    )
                },
            },
    {
        if amount <= 0 {
            return Err(VaultError::InvalidAmount);
        }
        let span: u64 = (lock_days as u64) * DAY_SECONDS;
        let lock_time = match now.checked_add(span) {
            Some(lock_time) => lock_time,
            None => {
                return Err(VaultError::ArithmeticError);
            },
        };
        let total = match self.total_deposits.checked_add(amount) {
            Some(total) => total,
            None => {
                return Err(VaultError::ArithmeticError);
            },
        };
        self.deposits.set(user, Deposit { user, amount, lock_time, withdrawn: false });
        self.total_deposits = total;
        Ok(())
    }

    /// Why the deposit of `user` cannot be paid out, if that is so. With
    /// `check_lock` unset the lock of the deposit is not looked at.
    pub open spec fn payout_refusal(&self, user: AccountId, now: u64, check_lock: bool) -> Option<
        VaultError,
    > {
        if !self.deposits@.dom().contains(user) {
            Some(VaultError::DepositNotFound)
        } else if self.deposits@[user].withdrawn {
            Some(VaultError::AlreadyWithdrawn)
        } else if check_lock && now < self.deposits@[user].lock_time {
            Some(VaultError::PositionLocked)
        } else if !fits_i128(self.total_deposits - self.deposits@[user].amount) {
            Some(VaultError::ArithmeticError)
        } else {
            None
        }
    }

    /// Pays out the deposit of `user`; the lock is looked at where `check_lock` is set.
    fn pay_out(&mut self, user: AccountId, now: u64, check_lock: bool) -> (result: Result<
        i128,
        VaultError,
    >)
        ensures
            match old(self).payout_refusal(user, now, check_lock) {
                Some(e) => result == Err::<i128, VaultError>(e) && *final(self) == *old(self),
                None => {
                    let held = old(self).deposits@[user];
                    &&& result == Ok::<i128, VaultError>(held.amount)
                    &&& *final(self) == (TimelockVault {
                        deposits: final(self).deposits,
                        total_deposits: (old(self).total_deposits - held.amount) as i128,
                        ..*old(self)
                    })
                    &&& final(self).deposits@ == old(self).deposits@.insert(
                        user,
                        Deposit { withdrawn: true, ..held },
                    )
                },
            },
    {
        let held = match self.deposits.get(user) {
            Some(held) => held,
            None => {
                return Err(VaultError::DepositNotFound);
            },
        };
        if held.withdrawn {
            return Err(VaultError::AlreadyWithdrawn);
        }
        if check_lock && now < held.lock_time {
            return Err(VaultError::PositionLocked);
        }
        let total = match self.total_deposits.checked_sub(held.amount) {
            Some(total) => total,
            None => {
                return Err(VaultError::ArithmeticError);
            },
        };
        self.deposits.set(user, Deposit { withdrawn: true, ..held });
        self.total_deposits = total;
        Ok(held.amount)
    }

    /// Withdraws the deposit of `user` at the time `now` and returns its
    /// amount. The user must have a deposit that was not withdrawn before and
    /// whose lock has run out. The deposit is marked as withdrawn and its
    /// amount taken off the total.
    pub fn withdraw(&mut self, user: AccountId, now: u64) -> (result: Result<i128, VaultError>)
        ensures
            match old(self).payout_refusal(user, now, true) {
                Some(e) => result == Err::<i128, VaultError>(e) && *final(self) == *old(self),
                None => {
                    let held = old(self).deposits@[user];
                    &&& result == Ok::<i128, VaultError>(held.amount)
                    &&& *final(self) == (TimelockVault {
                        deposits: final(self).deposits,
                        total_deposits: (old(self).total_deposits - held.amount) as i128,
                        ..*old(self)
                    })
                    &&& final(self).deposits@ == old(self).deposits@.insert(
                        user,
                        Deposit { withdrawn: true, ..held },
                    )
                },
            },
    {
        self.pay_out(user, now, true)
    }

    /// Withdraws the deposit of `user` on the administrator's authority,
    /// whether or not its lock has run out, and returns its amount. The user
    /// must have a deposit that was not withdrawn before.
    pub fn emergency_withdraw(&mut self, user: AccountId) -> (result: Result<i128, VaultError>)
        ensures
            match old(self).payout_refusal(user, 0, false) {
                Some(e) => result == Err::<i128, VaultError>(e) && *final(self) == *old(self),
                None => {
                    let held = old(self).deposits@[user];
                    &&& result == Ok::<i128, VaultError>(held.amount)
                    &&& *final(self) == (TimelockVault {
                        deposits: final(self).deposits,
                        total_deposits: (old(self).total_deposits - held.amount) as i128,
                        ..*old(self)
                    })
                    &&& final(self).deposits@ == old(self).deposits@.insert(
                        user,
                        Deposit { withdrawn: true, ..held },
                    )
                },
            },
    {
        self.pay_out(user, 0, false)
    }

    /// The deposit of `user`.
    pub fn get_deposit(&self, user: AccountId) -> (result: Result<Deposit, VaultError>)
        ensures
            result == (if self.deposits@.dom().contains(user) {
                Ok::<Deposit, VaultError>(self.deposits@[user])
            } else {
                Err::<Deposit, VaultError>(VaultError::DepositNotFound)
            }),
    {
        match self.deposits.get(user) {
            Some(held) => Ok(held),
            None => Err(VaultError::DepositNotFound),
        }
    }

    /// Whether `user` can withdraw at `now`: the user has a deposit that was
    /// not withdrawn and whose lock has run out.
    pub fn can_withdraw(&self, user: AccountId, now: u64) -> (possible: bool)
        ensures
            possible == (self.deposits@.dom().contains(user) && !self.deposits@[user].withdrawn && now
                >= self.deposits@[user].lock_time),
    {
        match self.deposits.get(user) {
            Some(held) => !held.withdrawn && now >= held.lock_time,
            None => false,
        }
    }

    /// The sum of the deposits that the vault holds.
    pub fn get_total_deposits(&self) -> (total: i128)
        ensures
            total == self.total_deposits,
    {
        self.total_deposits
    }
}

} // verus!
