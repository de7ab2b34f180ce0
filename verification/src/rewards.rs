//! The reward calculator: how many reward tokens a contribution earns, from a
//! configuration, the kind of reward, the size of the contribution and the
//! length of the contributor's streak.

use vstd::prelude::*;
use crate::arith::{fits_i128, scale_floor, BASIS_POINTS};

verus! {

/// The contribution from which a reward is scaled by 1.2: a hundred units.
pub const LARGE_CONTRIBUTION: i128 = 100;

/// The contribution from which a reward is scaled by 1.1: fifty units.
pub const MEDIUM_CONTRIBUTION: i128 = 50;

/// What a reward is given for.
#[derive(Clone, Copy, Debug, PartialEq, Eq, Structural)]
pub enum RewardType {
    WeeklyContribution,
    MilestoneReached,
    ChallengeCompleted,
    StreakBonus,
    ReferralBonus,
}

impl RewardType {
    /// The number under which the kind of reward is recorded.
    pub fn code(&self) -> (code: u32)
        ensures
            code == match *self {
                RewardType::WeeklyContribution => 1u32,
                RewardType::MilestoneReached => 2u32,
                RewardType::ChallengeCompleted => 3u32,
                RewardType::StreakBonus => 4u32,
                RewardType::ReferralBonus => 5u32,
            },
    {
        match self {
            RewardType::WeeklyContribution => 1,
            RewardType::MilestoneReached => 2,
            RewardType::ChallengeCompleted => 3,
            RewardType::StreakBonus => 4,
            RewardType::ReferralBonus => 5,
        }
    }
}

/// The amounts and multipliers from which rewards are computed.
#[derive(Clone, Copy, Debug, PartialEq, Eq, Structural)]
pub struct RewardConfig {
    /// The reward of a weekly contribution.
    pub base_weekly_reward: i128,
    /// The multiplier of a milestone reward, in basis points.
    pub milestone_multiplier: u32,
    /// The multiplier of a completion reward, in basis points.
    pub completion_multiplier: u32,
    /// The bonus for each week of a streak.
    pub streak_bonus_per_week: i128,
    /// The most that a streak bonus can be.
    pub max_streak_bonus: i128,
    /// The reward of a referral.
    pub referral_reward: i128,
    /// The smallest contribution that earns a reward.
    pub min_contribution_for_reward: i128,
}

/// The configuration of a newly initialized token.
pub open spec fn default_config() -> RewardConfig {
    RewardConfig {
        base_weekly_reward: 10,
        milestone_multiplier: 15000,
        completion_multiplier: 20000,
        streak_bonus_per_week: 1,
        max_streak_bonus: 50,
        referral_reward: 25,
        min_contribution_for_reward: 10,
    }
}

/// The reward of the given kind before it is scaled by the size of the contribution.
pub open spec fn base_reward(config: RewardConfig, reward_type: RewardType, streak_weeks: u32) -> int {
    match reward_type {
        RewardType::WeeklyContribution => config.base_weekly_reward as int,
        RewardType::MilestoneReached => (config.base_weekly_reward * config.milestone_multiplier)
            / 10000,
        RewardType::ChallengeCompleted => (config.base_weekly_reward * config.completion_multiplier)
            / 10000,
        RewardType::StreakBonus => if streak_weeks * config.streak_bonus_per_week
            <= config.max_streak_bonus {
            streak_weeks * config.streak_bonus_per_week
        } else {
            config.max_streak_bonus as int
        },
        RewardType::ReferralBonus => config.referral_reward as int,
    }
}

/// The product that the base reward of the given kind is computed from.
pub open spec fn base_product(config: RewardConfig, reward_type: RewardType, streak_weeks: u32) -> int {
    match reward_type {
        RewardType::MilestoneReached => config.base_weekly_reward * config.milestone_multiplier,
        RewardType::ChallengeCompleted => config.base_weekly_reward * config.completion_multiplier,
        RewardType::StreakBonus => streak_weeks * config.streak_bonus_per_week,
        _ => 0,
    }
}

/// The factor, in basis points, by which the size of a contribution scales its
/// reward: 1.2 from a hundred units, 1.1 from fifty units, and 1 below.
pub open spec fn contribution_factor(contribution_amount: i128) -> int {
    if contribution_amount >= 100 {
        12000
    } else if contribution_amount >= 50 {
        11000
    } else {
        10000
    }
}

/// The reward that a contribution earns: nothing below the smallest qualifying
/// contribution, and else the base reward of the kind, scaled by the size of
/// the contribution and rounded down.
pub open spec fn reward_for(
    config: RewardConfig,
    contribution_amount: i128,
    reward_type: RewardType,
    streak_weeks: u32,
) -> int {
    if contribution_amount < config.min_contribution_for_reward {
        0
    } else {
        (base_reward(config, reward_type, streak_weeks) * contribution_factor(contribution_amount))
            / 10000
    }
}

/// Whether the reward can be computed: the products on the way can be held.
pub open spec fn reward_computable(
    config: RewardConfig,
    contribution_amount: i128,
    reward_type: RewardType,
    streak_weeks: u32,
) -> bool {
    contribution_amount >= config.min_contribution_for_reward ==> {
        &&& fits_i128(base_product(config, reward_type, streak_weeks))
        &&& fits_i128(
            base_reward(config, reward_type, streak_weeks) * contribution_factor(
                contribution_amount,
            ),
        )
    }
}

impl RewardConfig {
    /// The configuration of a newly initialized token: a weekly reward of ten
    /// units, milestone and completion multipliers of 1.5 and 2, a streak
    /// bonus of one unit a week up to fifty units, a referral reward of
    /// twenty-five units, and rewards from a contribution of ten units.
    pub fn standard() -> (config: RewardConfig)
        ensures
            config == default_config(),
    {
        RewardConfig {
            base_weekly_reward: 10,
            milestone_multiplier: 15000,
            completion_multiplier: 20000,
            streak_bonus_per_week: 1,
            max_streak_bonus: 50,
            referral_reward: 25,
            min_contribution_for_reward: 10,
        }
    }

    /// The reward of the given kind before it is scaled by the size of the
    /// contribution; `None` where the product it is computed from cannot be held.
    pub fn base(&self, reward_type: RewardType, streak_weeks: u32) -> (base: Option<i128>)
        ensures
            base == (if fits_i128(base_product(*self, reward_type, streak_weeks)) {
                Some(base_reward(*self, reward_type, streak_weeks) as i128)
            } else {
                None
            }),
            fits_i128(base_product(*self, reward_type, streak_weeks)) ==> fits_i128(
                base_reward(*self, reward_type, streak_weeks),
            ),
    {
        match reward_type {
            RewardType::WeeklyContribution => Some(self.base_weekly_reward),
            RewardType::MilestoneReached => scale_floor(
                self.base_weekly_reward,
                self.milestone_multiplier as i128,
                BASIS_POINTS,
            ),
            RewardType::ChallengeCompleted => scale_floor(
                self.base_weekly_reward,
                self.completion_multiplier as i128,
                BASIS_POINTS,
            ),
            RewardType::StreakBonus => {
                match (streak_weeks as i128).checked_mul(self.streak_bonus_per_week) {
                    Some(bonus) => {
                        if bonus <= self.max_streak_bonus {
                            Some(bonus)
                        } else {
                            Some(self.max_streak_bonus)
                        }
                    },
                    None => None,
                }
            },
            RewardType::ReferralBonus => Some(self.referral_reward),
        }
    }

    /// The reward that a contribution of `contribution_amount` earns; `None`
    /// where it cannot be computed.
    pub fn reward(&self, contribution_amount: i128, reward_type: RewardType, streak_weeks: u32) -> (reward:
        Option<i128>)
        ensures
            reward == (if reward_computable(
                *self,
                contribution_amount,
                reward_type,
                streak_weeks,
            ) {
                Some(reward_for(*self, contribution_amount, reward_type, streak_weeks) as i128)
            } else {
                None
            }),
    {
        if contribution_amount < self.min_contribution_for_reward {
            return Some(0);
        }
        let base = match self.base(reward_type, streak_weeks) {
            Some(base) => base,
            None => {
                return None;
            },
        };
        let factor: i128 = if contribution_amount >= LARGE_CONTRIBUTION {
            12000
        } else if contribution_amount >= MEDIUM_CONTRIBUTION {
            11000
        } else {
            10000
        };
        scale_floor(base, factor, BASIS_POINTS)
    }
}

} // verus!
