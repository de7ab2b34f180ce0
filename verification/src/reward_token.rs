//! A plain token with a fixed administrator: balances, allowances, and a
//! supply that the administrator mints and burns.

use vstd::prelude::*;
use crate::account::{AccountId, AccountPair};
use crate::arith::fits_i128;
use crate::table::Table;
use crate::token::{
    TokenError, amount_at, amount_of, amount_sum, distinct_keys, lemma_amount_kept, move_amount,
    move_refusal, moved,
};

verus! {

/// The most decimals that a token can have.
pub const MAX_DECIMALS: u32 = 18;

/// The state of the token.
pub struct RewardToken {
    pub admin: AccountId,
    pub name: String,
    pub symbol: String,
    pub decimals: u32,
    pub total_supply: i128,
    pub balances: Table<AccountId, i128>,
    pub allowances: Table<AccountPair, i128>,
}

impl RewardToken {
    /// The supply is backed by the balances: each holder has one balance, and
    /// the balances sum to the supply.
    pub open spec fn backed(&self) -> bool {
        &&& distinct_keys(self.balances.entries@)
        &&& self.total_supply == amount_sum(self.balances.entries@)
    }

    /// A token whose whole supply is held by `admin`. The supply must be
    /// positive and the number of decimals at most eighteen.
    pub fn initialize(admin: AccountId, name: String, symbol: String, decimals: u32, total_supply: i128)
        -> (result: Result<RewardToken, TokenError>)
        ensures
            match result {
                Ok(token) => {
                    &&& decimals <= 18 && total_supply > 0
                    &&& token.admin == admin
                    &&& token.name == name
                    &&& token.symbol == symbol
                    &&& token.decimals == decimals
                    &&& token.total_supply == total_supply
                    &&& token.balances@ == Map::<AccountId, i128>::empty().insert(
                        admin,
                        total_supply,
                    )
                    &&& token.allowances@ == Map::<AccountPair, i128>::empty()
                    &&& token.backed()
                },
                Err(e) => e == TokenError::InvalidAmount && (decimals > 18 || total_supply <= 0),
            },
    {
        if decimals > MAX_DECIMALS || total_supply <= 0 {
            return Err(TokenError::InvalidAmount);
        }
        let mut balances: Table<AccountId, i128> = Table::new();
        let ghost empty = balances.entries@;
        balances.set(admin, total_supply);
        proof {
            lemma_amount_kept(empty, balances.entries@, admin, total_supply);
        }
        Ok(
            RewardToken {
                admin,
                name,
                symbol,
                decimals,
                total_supply,
                balances,
                allowances: Table::new(),
            },
        )
    }

    /// The name of the token.
    pub fn name(&self) -> (name: String)
        ensures
            name@ == self.name@,
    {
        self.name.clone()
    }

    /// The symbol of the token.
    pub fn symbol(&self) -> (symbol: String)
        ensures
            symbol@ == self.symbol@,
    {
        self.symbol.clone()
    }

    /// The number of decimals of the token.
    pub fn decimals(&self) -> (decimals: u32)
        ensures
            decimals == self.decimals,
    {
        self.decimals
    }

    /// The supply of the token.
    pub fn total_supply(&self) -> (supply: i128)
        ensures
            supply == self.total_supply,
    {
        self.total_supply
    }

    /// The balance of `addr`; nothing for an account that never held any.
    pub fn balance_of(&self, addr: AccountId) -> (balance: i128)
        ensures
            balance == amount_at(self.balances@, addr),
    {
        amount_of(&self.balances, addr)
    }

    /// Why a transfer of `amount` from `from` to `to` is refused, if it is.
    pub open spec fn transfer_refusal(&self, from: AccountId, to: AccountId, amount: i128) -> Option<
        TokenError,
    > {
        if amount <= 0 {
            Some(TokenError::InvalidAmount)
        } else {
            move_refusal(self.balances@, from, to, amount)
        }
    }

    /// Transfers `amount` from `from` to `to`. The amount must be positive and
    /// not above the balance of `from`.
    pub fn transfer(&mut self, from: AccountId, to: AccountId, amount: i128) -> (result: Result<
        bool,
        TokenError,
    >)
        ensures
            match old(self).transfer_refusal(from, to, amount) {
                Some(e) => result == Err::<bool, TokenError>(e) && *final(self) == *old(self),
                None => {
                    &&& result == Ok::<bool, TokenError>(true)
                    &&& *final(self) == (RewardToken {
                        balances: final(self).balances,
                        ..*old(self)
                    })
                    &&& final(self).balances@ == moved(old(self).balances@, from, to, amount)
                },
            },
            old(self).backed() ==> final(self).backed(),
    {
        if amount <= 0 {
            return Err(TokenError::InvalidAmount);
        }
        match move_amount(&mut self.balances, from, to, amount) {
            Ok(()) => Ok(true),
            Err(e) => Err(e),
        }
    }

    /// What `spender` may still spend of what `owner` holds.
    pub fn allowance(&self, owner: AccountId, spender: AccountId) -> (allowance: i128)
        ensures
            allowance == amount_at(self.allowances@, AccountPair { owner, spender }),
    {
        amount_of(&self.allowances, AccountPair { owner, spender })
    }

    /// Lets `spender` spend up to `amount` of what `owner` holds, in place of
    /// what `spender` was allowed before. The amount must not be negative.
    pub fn approve(&mut self, owner: AccountId, spender: AccountId, amount: i128) -> (result: Result<
        bool,
        TokenError,
    >)
        ensures
            amount < 0 ==> result == Err::<bool, TokenError>(TokenError::InvalidAmount)
                && *final(self) == *old(self),
            amount >= 0 ==> {
                &&& result == Ok::<bool, TokenError>(true)
                &&& *final(self) == (RewardToken {
                    allowances: final(self).allowances,
                    ..*old(self)
                })
                &&& final(self).allowances@ == old(self).allowances@.insert(
                    AccountPair { owner, spender },
                    amount,
                )
            },
            old(self).backed() ==> final(self).backed(),
    {
        if amount < 0 {
            return Err(TokenError::InvalidAmount);
        }
        self.allowances.set(AccountPair { owner, spender }, amount);
        Ok(true)
    }

    /// Why a transfer by `spender` of `amount` from `from` to `to` is refused, if it is.
    pub open spec fn transfer_from_refusal(
        &self,
        spender: AccountId,
        from: AccountId,
        to: AccountId,
        amount: i128,
    ) -> Option<TokenError> {
        if amount <= 0 {
            Some(TokenError::InvalidAmount)
        } else if amount_at(self.allowances@, AccountPair { owner: from, spender }) < amount {
            Some(TokenError::InsufficientAllowance)
        } else {
            move_refusal(self.balances@, from, to, amount)
        }
    }

    /// Transfers `amount` from `from` to `to` on behalf of `spender`, and
    /// takes the amount off what `spender` may spend. The amount must be
    /// positive, and not above the allowance or the balance of `from`.
    pub fn transfer_from(&mut self, spender: AccountId, from: AccountId, to: AccountId, amount: i128)
        -> (result: Result<bool, TokenError>)
        ensures
            match old(self).transfer_from_refusal(spender, from, to, amount) {
                Some(e) => result == Err::<bool, TokenError>(e) && *final(self) == *old(self),
                None => {
                    let pair = AccountPair { owner: from, spender };
                    &&& result == Ok::<bool, TokenError>(true)
                    &&& *final(self) == (RewardToken {
                        balances: final(self).balances,
                        allowances: final(self).allowances,
                        ..*old(self)
                    })
                    &&& final(self).balances@ == moved(old(self).balances@, from, to, amount)
                    &&& final(self).allowances@ == old(self).allowances@.insert(
                        pair,
                        (amount_at(old(self).allowances@, pair) - amount) as i128,
                    )
                },
            },
            old(self).backed() ==> final(self).backed(),
    {
        if amount <= 0 {
            return Err(TokenError::InvalidAmount);
        }
        let pair = AccountPair { owner: from, spender };
        let allowed = amount_of(&self.allowances, pair);
        if allowed < amount {
            return Err(TokenError::InsufficientAllowance);
        }
        match move_amount(&mut self.balances, from, to, amount) {
            Ok(()) => {},
            Err(e) => {
                return Err(e);
            },
        }
        self.allowances.set(pair, allowed - amount);
        Ok(true)
    }

    /// Why the minting of `amount` for `to` is refused, if it is.
    pub open spec fn mint_refusal(&self, to: AccountId, amount: i128) -> Option<TokenError> {
        if amount <= 0 {
            Some(TokenError::InvalidAmount)
        } else if !fits_i128(amount_at(self.balances@, to) + amount) || !fits_i128(
            self.total_supply + amount,
        ) {
            Some(TokenError::ArithmeticError)
        } else {
            None
        }
    }

    /// Mints `amount`, which must be positive, for `to`: the balance of `to`
    /// and the supply grow by it.
    pub fn mint(&mut self, to: AccountId, amount: i128) -> (result: Result<bool, TokenError>)
        ensures
            match old(self).mint_refusal(to, amount) {
                Some(e) => result == Err::<bool, TokenError>(e) && *final(self) == *old(self),
                None => {
                    &&& result == Ok::<bool, TokenError>(true)
                    &&& *final(self) == (RewardToken {
                        total_supply: (old(self).total_supply + amount) as i128,
                        balances: final(self).balances,
                        ..*old(self)
                    })
                    &&& final(self).balances@ == old(self).balances@.insert(
                        to,
                        (amount_at(old(self).balances@, to) + amount) as i128,
                    )
                },
            },
            old(self).backed() ==> final(self).backed(),
    {
        if amount <= 0 {
            return Err(TokenError::InvalidAmount);
        }
        let balance = match amount_of(&self.balances, to).checked_add(amount) {
            Some(balance) => balance,
            None => {
                return Err(TokenError::ArithmeticError);
            },
        };
        let supply = match self.total_supply.checked_add(amount) {
            Some(supply) => supply,
            None => {
                return Err(TokenError::ArithmeticError);
            },
        };
        let ghost before = self.balances.entries@;
        self.balances.set(to, balance);
        self.total_supply = supply;
        proof {
            lemma_amount_kept(before, self.balances.entries@, to, balance);
        }
        Ok(true)
    }

    /// Why the burning of `amount` held by `from` is refused, if it is.
    pub open spec fn burn_refusal(&self, from: AccountId, amount: i128) -> Option<TokenError> {
        if amount <= 0 {
            Some(TokenError::InvalidAmount)
        } else if amount_at(self.balances@, from) < amount {
            Some(TokenError::InsufficientBalance)
        } else if !fits_i128(self.total_supply - amount) {
            Some(TokenError::ArithmeticError)
        } else {
            None
        }
    }

    /// Burns `amount` of what `from` holds: the balance of `from` and the
    /// supply shrink by it. The amount must be positive and not above the
    /// balance.
    pub fn burn(&mut self, from: AccountId, amount: i128) -> (result: Result<bool, TokenError>)
        ensures
            match old(self).burn_refusal(from, amount) {
                Some(e) => result == Err::<bool, TokenError>(e) && *final(self) == *old(self),
                None => {
                    &&& result == Ok::<bool, TokenError>(true)
                    &&& *final(self) == (RewardToken {
                        total_supply: (old(self).total_supply - amount) as i128,
                        balances: final(self).balances,
                        ..*old(self)
                    })
                    &&& final(self).balances@ == old(self).balances@.insert(
                        from,
                        (amount_at(old(self).balances@, from) - amount) as i128,
                    )
                },
            },
            old(self).backed() ==> final(self).backed(),
    {
        if amount <= 0 {
            return Err(TokenError::InvalidAmount);
        }
        let balance = amount_of(&self.balances, from);
        if balance < amount {
            return Err(TokenError::InsufficientBalance);
        }
        let supply = match self.total_supply.checked_sub(amount) {
            Some(supply) => supply,
            None => {
                return Err(TokenError::ArithmeticError);
            },
        };
        let remaining = balance - amount;
        let ghost before = self.balances.entries@;
        self.balances.set(from, remaining);
        self.total_supply = supply;
        proof {
            lemma_amount_kept(before, self.balances.entries@, from, remaining);
        }
        Ok(true)
    }
}

} // verus!
