//! The SaveCoin reward token: balances and allowances, the minters that may
//! issue rewards, and the record of the rewards issued.

use vstd::prelude::*;
use crate::account::{AccountId, AccountPair, find_account, first_at, is_member};
use crate::arith::{fits_i128, scale_floor, BASIS_POINTS};
use crate::rewards::{RewardConfig, RewardType, default_config, reward_computable, reward_for};
use crate::table::Table;
use crate::token::{
    TokenError, amount_at, amount_of, amount_sum, distinct_keys, lemma_amount_kept, move_amount,
    move_refusal, moved,
};

verus! {

/// The name, symbol, precision and supply of the token.
pub struct TokenMetadata {
    pub name: String,
    pub symbol: String,
    pub decimals: u32,
    pub total_supply: i128,
}

/// One reward that was issued.
#[derive(Clone, Copy, Debug, PartialEq, Eq, Structural)]
pub struct RewardRecord {
    pub recipient: AccountId,
    pub amount: i128,
    pub reward_type: RewardType,
    pub challenge_id: u32,
    pub timestamp: u64,
    /// The multiplier that was applied, in basis points.
    pub multiplier: u32,
}

/// The rewards issued so far, summed by their kind.
#[derive(Clone, Copy, Debug, PartialEq, Eq, Structural)]
pub struct RewardTotals {
    pub weekly_contribution: i128,
    pub milestone_reached: i128,
    pub challenge_completed: i128,
    pub streak_bonus: i128,
    pub referral_bonus: i128,
}

/// The state of the SaveCoin token. Until it is initialized it has no
/// administrator, no metadata and no reward configuration.
pub struct SaveCoinToken {
    pub admin: Option<AccountId>,
    pub metadata: Option<TokenMetadata>,
    pub minters: Vec<AccountId>,
    pub reward_config: Option<RewardConfig>,
    pub total_rewards: i128,
    pub balances: Table<AccountId, i128>,
    pub allowances: Table<AccountPair, i128>,
    pub reward_history: Vec<RewardRecord>,
    pub reward_totals: RewardTotals,
}

/// The rewards in `log` that were issued to `user`, oldest first.
pub open spec fn rewards_of(log: Seq<RewardRecord>, user: AccountId) -> Seq<RewardRecord>
    decreases log.len(),
{
    if log.len() == 0 {
        Seq::empty()
    } else {
        let earlier = rewards_of(log.drop_last(), user);
        if log.last().recipient == user {
            earlier.push(log.last())
        } else {
            earlier
        }
    }
}

impl RewardTotals {
    /// The sum of the rewards of the kind `reward_type`.
    pub open spec fn total_of(&self, reward_type: RewardType) -> i128 {
        match reward_type {
            RewardType::WeeklyContribution => self.weekly_contribution,
            RewardType::MilestoneReached => self.milestone_reached,
            RewardType::ChallengeCompleted => self.challenge_completed,
            RewardType::StreakBonus => self.streak_bonus,
            RewardType::ReferralBonus => self.referral_bonus,
        }
    }

    /// These sums with `total` in place of the sum of the kind `reward_type`.
    pub open spec fn with_total(&self, reward_type: RewardType, total: i128) -> RewardTotals {
        match reward_type {
            RewardType::WeeklyContribution => RewardTotals { weekly_contribution: total, ..*self },
            RewardType::MilestoneReached => RewardTotals { milestone_reached: total, ..*self },
            RewardType::ChallengeCompleted => RewardTotals { challenge_completed: total, ..*self },
            RewardType::StreakBonus => RewardTotals { streak_bonus: total, ..*self },
            RewardType::ReferralBonus => RewardTotals { referral_bonus: total, ..*self },
        }
    }

    /// The sum of the rewards of the kind `reward_type`.
    pub fn get(&self, reward_type: RewardType) -> (total: i128)
        ensures
            total == self.total_of(reward_type),
    {
        match reward_type {
            RewardType::WeeklyContribution => self.weekly_contribution,
            RewardType::MilestoneReached => self.milestone_reached,
            RewardType::ChallengeCompleted => self.challenge_completed,
            RewardType::StreakBonus => self.streak_bonus,
            RewardType::ReferralBonus => self.referral_bonus,
        }
    }

    /// These sums with `total` in place of the sum of the kind `reward_type`.
    pub fn set(&self, reward_type: RewardType, total: i128) -> (totals: RewardTotals)
        ensures
            totals == self.with_total(reward_type, total),
    {
        match reward_type {
            RewardType::WeeklyContribution => RewardTotals { weekly_contribution: total, ..*self },
            RewardType::MilestoneReached => RewardTotals { milestone_reached: total, ..*self },
            RewardType::ChallengeCompleted => RewardTotals { challenge_completed: total, ..*self },
            RewardType::StreakBonus => RewardTotals { streak_bonus: total, ..*self },
            RewardType::ReferralBonus => RewardTotals { referral_bonus: total, ..*self },
        }
    }
}

impl SaveCoinToken {
    /// The supply of the token: what the metadata says, and nothing before
    /// the token is initialized.
    pub open spec fn supply(&self) -> i128 {
        match self.metadata {
            Some(metadata) => metadata.total_supply,
            None => 0,
        }
    }

    /// The supply is backed by the balances: each holder has one balance, the
    /// balances sum to the supply, and a token without an administrator has
    /// no metadata yet.
    pub open spec fn backed(&self) -> bool {
        &&& distinct_keys(self.balances.entries@)
        &&& self.supply() == amount_sum(self.balances.entries@)
        &&& self.admin is None ==> self.metadata is None
    }

    /// A token that has not been initialized: nobody administers it, nothing
    /// is set, and nobody holds anything.
    pub fn new() -> (token: Self)
        ensures
            token.admin is None,
            token.metadata is None,
            token.reward_config is None,
            token.minters@.len() == 0,
            token.total_rewards == 0,
            token.balances@ == Map::<AccountId, i128>::empty(),
            token.allowances@ == Map::<AccountPair, i128>::empty(),
            token.reward_history@.len() == 0,
            token.reward_totals == (RewardTotals {
                weekly_contribution: 0,
                milestone_reached: 0,
                challenge_completed: 0,
                streak_bonus: 0,
                referral_bonus: 0,
            }),
            token.backed(),
    {
        SaveCoinToken {
            admin: None,
            metadata: None,
            minters: Vec::new(),
            reward_config: None,
            total_rewards: 0,
            balances: Table::new(),
            allowances: Table::new(),
            reward_history: Vec::new(),
            reward_totals: RewardTotals {
                weekly_contribution: 0,
                milestone_reached: 0,
                challenge_completed: 0,
                streak_bonus: 0,
                referral_bonus: 0,
            },
        }
    }

    /// Initializes the token: `admin` administers it, the supply is zero, no
    /// minter is authorized and the reward configuration is the standard one.
    /// A token can be initialized once.
    pub fn initialize(&mut self, admin: AccountId, name: String, symbol: String, decimals: u32) -> (result:
        Result<(), TokenError>)
        ensures
            old(self).admin is Some ==> result == Err::<(), TokenError>(
                TokenError::AlreadyInitialized,
            ) && *final(self) == *old(self),
            old(self).admin is None ==> {
                &&& result is Ok
                &&& *final(self) == (SaveCoinToken {
                    admin: Some(admin),
                    metadata: Some(TokenMetadata { name, symbol, decimals, total_supply: 0 }),
                    minters: final(self).minters,
                    reward_config: Some(default_config()),
                    total_rewards: 0,
                    ..*old(self)
                })
                &&& final(self).minters@.len() == 0
            },
            old(self).backed() ==> final(self).backed(),
    {
        if self.admin.is_some() {
            return Err(TokenError::AlreadyInitialized);
        }
        self.admin = Some(admin);
        self.metadata = Some(TokenMetadata { name, symbol, decimals, total_supply: 0 });
        self.minters = Vec::new();
        self.reward_config = Some(RewardConfig::standard());
        self.total_rewards = 0;
        Ok(())
    }

    /// The balance of `id`; nothing for an account that never held any.
    pub fn balance(&self, id: AccountId) -> (balance: i128)
        ensures
            balance == amount_at(self.balances@, id),
    {
        amount_of(&self.balances, id)
    }

    /// Why a transfer of `amount` from `from` to `to` is refused, if it is.
    pub open spec fn transfer_refusal(&self, from: AccountId, to: AccountId, amount: i128) -> Option<
        TokenError,
    > {
        if amount < 0 {
            Some(TokenError::InvalidAmount)
        } else if amount == 0 {
            None
        } else {
            move_refusal(self.balances@, from, to, amount)
        }
    }

    /// Transfers `amount` from `from` to `to`. The amount must not be negative
    /// and not above the balance of `from`; a transfer of nothing does nothing.
    pub fn transfer(&mut self, from: AccountId, to: AccountId, amount: i128) -> (result: Result<
        (),
        TokenError,
    >)
        ensures
            match old(self).transfer_refusal(from, to, amount) {
                Some(e) => result == Err::<(), TokenError>(e) && *final(self) == *old(self),
                None => {
                    &&& result is Ok
                    &&& amount == 0 ==> *final(self) == *old(self)
                    &&& amount > 0 ==> *final(self) == (SaveCoinToken {
                        balances: final(self).balances,
                        ..*old(self)
                    }) && final(self).balances@ == moved(old(self).balances@, from, to, amount)
                },
            },
            old(self).backed() ==> final(self).backed(),
    {
        if amount < 0 {
            return Err(TokenError::InvalidAmount);
        }
        if amount == 0 {
            return Ok(());
        }
        move_amount(&mut self.balances, from, to, amount)
    }

    /// Lets `spender` spend up to `amount` of what `from` holds, in place of
    /// what `spender` was allowed before. The amount must not be negative.
    pub fn approve(&mut self, from: AccountId, spender: AccountId, amount: i128) -> (result: Result<
        (),
        TokenError,
    >)
        ensures
            amount < 0 ==> result == Err::<(), TokenError>(TokenError::InvalidAmount) && *final(self)
                == *old(self),
            amount >= 0 ==> {
                &&& result is Ok
                &&& *final(self) == (SaveCoinToken {
                    allowances: final(self).allowances,
                    ..*old(self)
                })
                &&& final(self).allowances@ == old(self).allowances@.insert(
                    AccountPair { owner: from, spender },
                    amount,
                )
            },
            old(self).backed() ==> final(self).backed(),
    {
        if amount < 0 {
            return Err(TokenError::InvalidAmount);
        }
        self.allowances.set(AccountPair { owner: from, spender }, amount);
        Ok(())
    }

    /// What `spender` may still spend of what `from` holds.
    pub fn allowance(&self, from: AccountId, spender: AccountId) -> (allowance: i128)
        ensures
            allowance == amount_at(self.allowances@, AccountPair { owner: from, spender }),
    {
        amount_of(&self.allowances, AccountPair { owner: from, spender })
    }

    /// Why a transfer by `spender` of `amount` from `from` to `to` is refused, if it is.
    pub open spec fn transfer_from_refusal(
        &self,
        spender: AccountId,
        from: AccountId,
        to: AccountId,
        amount: i128,
    ) -> Option<TokenError> {
        if amount < 0 {
            Some(TokenError::InvalidAmount)
        } else if amount == 0 {
            None
        } else if amount_at(self.allowances@, AccountPair { owner: from, spender }) < amount {
            Some(TokenError::InsufficientAllowance)
        } else {
            move_refusal(self.balances@, from, to, amount)
        }
    }

    /// Transfers `amount` from `from` to `to` on behalf of `spender`, and
    /// takes the amount off what `spender` may spend. The amount must not be
    /// negative, nor above the allowance or the balance of `from`.
    pub fn transfer_from(&mut self, spender: AccountId, from: AccountId, to: AccountId, amount: i128)
        -> (result: Result<(), TokenError>)
        ensures
            match old(self).transfer_from_refusal(spender, from, to, amount) {
                Some(e) => result == Err::<(), TokenError>(e) && *final(self) == *old(self),
                None => {
                    let pair = AccountPair { owner: from, spender };
                    &&& result is Ok
                    &&& amount == 0 ==> *final(self) == *old(self)
                    &&& amount > 0 ==> {
                        &&& *final(self) == (SaveCoinToken {
                            balances: final(self).balances,
                            allowances: final(self).allowances,
                            ..*old(self)
                        })
                        &&& final(self).balances@ == moved(old(self).balances@, from, to, amount)
                        &&& final(self).allowances@ == old(self).allowances@.insert(
                            pair,
                            (amount_at(old(self).allowances@, pair) - amount) as i128,
                        )
                    }
                },
            },
            old(self).backed() ==> final(self).backed(),
    {
        if amount < 0 {
            return Err(TokenError::InvalidAmount);
        }
        if amount == 0 {
            return Ok(());
        }
        let pair = AccountPair { owner: from, spender };
        let allowed = amount_of(&self.allowances, pair);
        if allowed < amount {
            return Err(TokenError::InsufficientAllowance);
        }
        match move_amount(&mut self.balances, from, to, amount) {
            Ok(()) => {},
            Err(e) => {
                return Err(e);
            },
        }
        self.allowances.set(pair, allowed - amount);
        Ok(())
    }
}

impl SaveCoinToken {
    /// The name of the token; `SaveCoin` before it is initialized.
    pub fn name(&self) -> (name: String)
        ensures
            name@ == (match self.metadata {
                Some(metadata) => metadata.name@,
                None => "SaveCoin"@,
            }),
    {
        match &self.metadata {
            Some(metadata) => metadata.name.clone(),
            None => "SaveCoin".to_owned(),
        }
    }

    /// The symbol of the token; `SAVE` before it is initialized.
    pub fn symbol(&self) -> (symbol: String)
        ensures
            symbol@ == (match self.metadata {
                Some(metadata) => metadata.symbol@,
                None => "SAVE"@,
            }),
    {
        match &self.metadata {
            Some(metadata) => metadata.symbol.clone(),
            None => "SAVE".to_owned(),
        }
    }

    /// The number of decimals of the token; seven before it is initialized.
    pub fn decimals(&self) -> (decimals: u32)
        ensures
            decimals == (match self.metadata {
                Some(metadata) => metadata.decimals,
                None => 7u32,
            }),
    {
        match &self.metadata {
            Some(metadata) => metadata.decimals,
            None => 7,
        }
    }

    /// The supply of the token; nothing before it is initialized.
    pub fn total_supply(&self) -> (supply: i128)
        ensures
            supply == (match self.metadata {
                Some(metadata) => metadata.total_supply,
                None => 0i128,
            }),
    {
        match &self.metadata {
            Some(metadata) => metadata.total_supply,
            None => 0,
        }
    }

    /// The amount that is minted for a requested `amount` at `multiplier`
    /// basis points, rounded down.
    pub open spec fn minted(amount: i128, multiplier: u32) -> int {
        (amount * multiplier) / 10000
    }

    /// Why the minting of a reward is refused, if it is.
    pub open spec fn mint_refusal(
        &self,
        minter: AccountId,
        to: AccountId,
        amount: i128,
        reward_type: RewardType,
        multiplier: u32,
    ) -> Option<TokenError> {
        let minted = Self::minted(amount, multiplier);
        if !self.minters@.contains(minter) {
            Some(TokenError::NotMinter)
        } else if amount <= 0 {
            Some(TokenError::InvalidAmount)
        } else if self.metadata is None {
            Some(TokenError::NotInitialized)
        } else if !fits_i128(amount * multiplier) || !fits_i128(
            amount_at(self.balances@, to) + minted,
        ) || !fits_i128(self.metadata->0.total_supply + minted) || !fits_i128(
            self.reward_totals.total_of(reward_type) + minted,
        ) || !fits_i128(self.total_rewards + minted) {
            Some(TokenError::ArithmeticError)
        } else {
            None
        }
    }

    /// Mints a reward for `to` and returns the amount minted: the requested
    /// `amount` at `multiplier` basis points.
    ///
    /// The minter must be one of the authorized minters and the amount
    /// positive. The minted amount is added to the balance of `to`, to the
    /// supply, to the sum of the rewards of its kind and to the sum of all
    /// rewards, and a record of it is appended to the history.
    pub fn mint_reward(
        &mut self,
        minter: AccountId,
        to: AccountId,
        amount: i128,
        reward_type: RewardType,
        challenge_id: u32,
        multiplier: u32,
        now: u64,
    ) -> (result: Result<i128, TokenError>)
        ensures
            match old(self).mint_refusal(minter, to, amount, reward_type, multiplier) {
                Some(e) => result == Err::<i128, TokenError>(e) && *final(self) == *old(self),
                None => {
                    let minted = Self::minted(amount, multiplier) as i128;
                    &&& result == Ok::<i128, TokenError>(minted)
                    &&& *final(self) == (SaveCoinToken {
                        metadata: final(self).metadata,
                        total_rewards: (old(self).total_rewards + minted) as i128,
                        balances: final(self).balances,
                        reward_history: final(self).reward_history,
                        reward_totals: old(self).reward_totals.with_total(
                            reward_type,
                            (old(self).reward_totals.total_of(reward_type) + minted) as i128,
                        ),
                        ..*old(self)
                    })
                    &&& final(self).metadata == Some(
                        TokenMetadata {
                            total_supply: (old(self).metadata->0.total_supply + minted) as i128,
                            ..old(self).metadata->0
                        },
                    )
                    &&& final(self).balances@ == old(self).balances@.insert(
                        to,
                        (amount_at(old(self).balances@, to) + minted) as i128,
                    )
                    &&& final(self).reward_history@ == old(self).reward_history@.push(
                        RewardRecord {
                            recipient: to,
                            amount: minted,
                            reward_type,
                            challenge_id,
                            timestamp: now,
                            multiplier,
                        },
                    )
                },
            },
            old(self).backed() ==> final(self).backed(),
    {
        if !is_member(&self.minters, minter) {
            return Err(TokenError::NotMinter);
        }
        if amount <= 0 {
            return Err(TokenError::InvalidAmount);
        }
        let supply = match &self.metadata {
            Some(metadata) => metadata.total_supply,
            None => {
                return Err(TokenError::NotInitialized);
            },
        };
        let minted = match scale_floor(amount, multiplier as i128, BASIS_POINTS) {
            Some(minted) => minted,
            None => {
                return Err(TokenError::ArithmeticError);
            },
        };
        let balance = match amount_of(&self.balances, to).checked_add(minted) {
            Some(balance) => balance,
            None => {
                return Err(TokenError::ArithmeticError);
            },
        };
        let supply = match supply.checked_add(minted) {
            Some(supply) => supply,
            None => {
                return Err(TokenError::ArithmeticError);
            },
        };
        let of_kind = match self.reward_totals.get(reward_type).checked_add(minted) {
            Some(of_kind) => of_kind,
            None => {
                return Err(TokenError::ArithmeticError);
            },
        };
        let total_rewards = match self.total_rewards.checked_add(minted) {
            Some(total_rewards) => total_rewards,
            None => {
                return Err(TokenError::ArithmeticError);
            },
        };
        let ghost before = self.balances.entries@;
        self.balances.set(to, balance);
        proof {
            lemma_amount_kept(before, self.balances.entries@, to, balance);
        }
        match &mut self.metadata {
            Some(metadata) => {
                metadata.total_supply = supply;
            },
            None => {},
        }
        self.reward_history.push(
            RewardRecord {
                recipient: to,
                amount: minted,
                reward_type,
                challenge_id,
                timestamp: now,
                multiplier,
            },
        );
        self.reward_totals = self.reward_totals.set(reward_type, of_kind);
        self.total_rewards = total_rewards;
        Ok(minted)
    }

    /// The reward that a contribution of `contribution_amount` earns under the
    /// token's configuration: nothing below the smallest qualifying
    /// contribution, and else the base reward of the kind, scaled by the size
    /// of the contribution.
    pub fn calculate_reward(&self, contribution_amount: i128, reward_type: RewardType, streak_weeks: u32)
        -> (result: Result<i128, TokenError>)
        ensures
            result == (match self.reward_config {
                None => Err::<i128, TokenError>(TokenError::RewardConfigNotSet),
                Some(config) => if reward_computable(
                    config,
                    contribution_amount,
                    reward_type,
                    streak_weeks,
                ) {
                    Ok::<i128, TokenError>(
                        reward_for(config, contribution_amount, reward_type, streak_weeks) as i128,
                    )
                } else {
                    Err::<i128, TokenError>(TokenError::ArithmeticError)
                },
            }),
    {
        let config = match self.reward_config {
            Some(config) => config,
            None => {
                return Err(TokenError::RewardConfigNotSet);
            },
        };
        match config.reward(contribution_amount, reward_type, streak_weeks) {
            Some(reward) => Ok(reward),
            None => Err(TokenError::ArithmeticError),
        }
    }

    /// Authorizes `minter` to mint rewards. Only the administrator may do so;
    /// a minter that is authorized already is not entered again.
    pub fn add_minter(&mut self, admin: AccountId, minter: AccountId) -> (result: Result<
        (),
        TokenError,
    >)
        ensures
            old(self).admin != Some(admin) ==> result == Err::<(), TokenError>(
                TokenError::NotAuthorized,
            ) && *final(self) == *old(self),
            old(self).admin == Some(admin) ==> {
                &&& result is Ok
                &&& *final(self) == (SaveCoinToken { minters: final(self).minters, ..*old(self) })
                &&& final(self).minters@ == (if old(self).minters@.contains(minter) {
                    old(self).minters@
                } else {
                    old(self).minters@.push(minter)
                })
            },
            old(self).backed() ==> final(self).backed(),
    {
        match self.admin {
            Some(stored) => {
                if stored != admin {
                    return Err(TokenError::NotAuthorized);
                }
            },
            None => {
                return Err(TokenError::NotAuthorized);
            },
        }
        if !is_member(&self.minters, minter) {
            self.minters.push(minter);
        }
        Ok(())
    }

    /// Takes from `minter` the authorization to mint rewards: its first entry
    /// among the minters is removed. Only the administrator may do so.
    pub fn remove_minter(&mut self, admin: AccountId, minter: AccountId) -> (result: Result<
        (),
        TokenError,
    >)
        ensures
            old(self).admin != Some(admin) ==> result == Err::<(), TokenError>(
                TokenError::NotAuthorized,
            ) && *final(self) == *old(self),
            old(self).admin == Some(admin) ==> {
                &&& result is Ok
                &&& *final(self) == (SaveCoinToken { minters: final(self).minters, ..*old(self) })
                &&& !old(self).minters@.contains(minter) ==> final(self).minters@ == old(self).minters@
                &&& forall|i: int|
                    first_at(old(self).minters@, minter, i) ==> final(self).minters@
                        == old(self).minters@.remove(i)
            },
            old(self).backed() ==> final(self).backed(),
    {
        match self.admin {
            Some(stored) => {
                if stored != admin {
                    return Err(TokenError::NotAuthorized);
                }
            },
            None => {
                return Err(TokenError::NotAuthorized);
            },
        }
        match find_account(&self.minters, minter) {
            Some(i) => {
                proof {
                    assert forall|k: int|
                        first_at(self.minters@, minter, k) implies k == i by {
                        if k < i {
                            assert(self.minters@[k] != minter);
                        } else if i < k {
                            assert(self.minters@[i as int] != minter);
                        }
                    }
                }
                self.minters.remove(i);
            },
            None => {
                assert forall|k: int| !first_at(self.minters@, minter, k) by {
                    if first_at(self.minters@, minter, k) {
                        assert(self.minters@.contains(minter));
                    }
                }
            },
        }
        Ok(())
    }

    /// Puts `config` in place of the reward configuration. Only the
    /// administrator may do so.
    pub fn update_reward_config(&mut self, admin: AccountId, config: RewardConfig) -> (result: Result<
        (),
        TokenError,
    >)
        ensures
            old(self).admin != Some(admin) ==> result == Err::<(), TokenError>(
                TokenError::NotAuthorized,
            ) && *final(self) == *old(self),
            old(self).admin == Some(admin) ==> result is Ok && *final(self) == (SaveCoinToken {
                reward_config: Some(config),
                ..*old(self)
            }),
            old(self).backed() ==> final(self).backed(),
    {
        match self.admin {
            Some(stored) => {
                if stored != admin {
                    return Err(TokenError::NotAuthorized);
                }
            },
            None => {
                return Err(TokenError::NotAuthorized);
            },
        }
        self.reward_config = Some(config);
        Ok(())
    }

    /// The rewards that were issued to `user`, oldest first.
    pub fn get_reward_history(&self, user: AccountId) -> (history: Vec<RewardRecord>)
        ensures
            history@ == rewards_of(self.reward_history@, user),
    {
        let mut history: Vec<RewardRecord> = Vec::new();
        let mut k: usize = 0;
        while k < self.reward_history.len()
            invariant
                k <= self.reward_history.len(),
                history@ == rewards_of(self.reward_history@.take(k as int), user),
            decreases self.reward_history.len() - k,
        {
            assert(self.reward_history@.take(k as int + 1).drop_last()
                =~= self.reward_history@.take(k as int));
            if self.reward_history[k].recipient == user {
                history.push(self.reward_history[k]);
            }
            k += 1;
        }
        assert(self.reward_history@.take(k as int) =~= self.reward_history@);
        history
    }

    /// The sum of the rewards of the kind `reward_type` issued so far.
    pub fn get_reward_stats(&self, reward_type: RewardType) -> (total: i128)
        ensures
            total == self.reward_totals.total_of(reward_type),
    {
        self.reward_totals.get(reward_type)
    }

    /// The sum of all rewards issued so far.
    pub fn get_total_rewards(&self) -> (total: i128)
        ensures
            total == self.total_rewards,
    {
        self.total_rewards
    }

    /// The reward configuration, once the token is initialized.
    pub fn get_reward_config(&self) -> (result: Result<RewardConfig, TokenError>)
        ensures
            result == (match self.reward_config {
                Some(config) => Ok::<RewardConfig, TokenError>(config),
                None => Err::<RewardConfig, TokenError>(TokenError::RewardConfigNotSet),
            }),
    {
        match self.reward_config {
            Some(config) => Ok(config),
            None => Err(TokenError::RewardConfigNotSet),
        }
    }

    /// The authorized minters, in the order in which they were authorized.
    pub fn get_minters(&self) -> (minters: &Vec<AccountId>)
        ensures
            *minters == self.minters,
    {
        &self.minters
    }

    /// Whether `address` is an authorized minter.
    pub fn is_minter(&self, address: AccountId) -> (authorized: bool)
        ensures
            authorized == self.minters@.contains(address),
    {
        is_member(&self.minters, address)
    }
}

} // verus!
