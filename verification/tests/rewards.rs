use stellarsave::account::AccountId;
use stellarsave::rewards::{RewardConfig, RewardType};
use stellarsave::save_coin::{RewardRecord, SaveCoinToken};
use stellarsave::token::TokenError;

fn admin() -> AccountId {
    AccountId::account(0, 1)
}

fn minter() -> AccountId {
    AccountId::contract(0, 2)
}

fn alice() -> AccountId {
    AccountId::account(0, 3)
}

fn bob() -> AccountId {
    AccountId::account(0, 4)
}

fn carol() -> AccountId {
    AccountId::account(0, 5)
}

fn token() -> SaveCoinToken {
    let mut token = SaveCoinToken::new();
    assert_eq!(token.initialize(admin(), "SaveCoin".to_string(), "SAVE".to_string(), 7), Ok(()));
    token
}

fn funded_token() -> SaveCoinToken {
    let mut token = token();
    assert_eq!(token.add_minter(admin(), minter()), Ok(()));
    let minted = token.mint_reward(minter(), alice(), 1000, RewardType::WeeklyContribution, 1, 10000, 0);
    assert_eq!(minted, Ok(1000));
    token
}

#[test]
fn weekly_reward_with_medium_tier() {
    let token = token();
    assert_eq!(token.calculate_reward(60, RewardType::WeeklyContribution, 0), Ok(11));
}

#[test]
fn standard_configuration() {
    let config = RewardConfig::standard();
    assert_eq!(config.base_weekly_reward, 10);
    assert_eq!(config.milestone_multiplier, 15000);
    assert_eq!(config.completion_multiplier, 20000);
    assert_eq!(config.streak_bonus_per_week, 1);
    assert_eq!(config.max_streak_bonus, 50);
    assert_eq!(config.referral_reward, 25);
    assert_eq!(config.min_contribution_for_reward, 10);
    assert_eq!(token().get_reward_config(), Ok(config));
}

#[test]
fn reward_is_zero_below_the_minimum() {
    let token = token();
    for kind in [
        RewardType::WeeklyContribution,
        RewardType::MilestoneReached,
        RewardType::ChallengeCompleted,
        RewardType::StreakBonus,
        RewardType::ReferralBonus,
    ] {
        assert_eq!(token.calculate_reward(9, kind, 12), Ok(0));
        assert_eq!(token.calculate_reward(-1, kind, 12), Ok(0));
    }
    assert_eq!(token.calculate_reward(10, RewardType::WeeklyContribution, 0), Ok(10));
}

#[test]
fn reward_tiers() {
    let token = token();
    assert_eq!(token.calculate_reward(49, RewardType::WeeklyContribution, 0), Ok(10));
    assert_eq!(token.calculate_reward(50, RewardType::WeeklyContribution, 0), Ok(11));
    assert_eq!(token.calculate_reward(99, RewardType::WeeklyContribution, 0), Ok(11));
    assert_eq!(token.calculate_reward(100, RewardType::WeeklyContribution, 0), Ok(12));
    assert_eq!(token.calculate_reward(1_000_000, RewardType::WeeklyContribution, 0), Ok(12));
}

#[test]
fn reward_by_kind() {
    let token = token();
    // 10 * 1.5 = 15; 15 * 1.1 = 16.5, rounded down
    assert_eq!(token.calculate_reward(10, RewardType::MilestoneReached, 0), Ok(15));
    assert_eq!(token.calculate_reward(60, RewardType::MilestoneReached, 0), Ok(16));
    assert_eq!(token.calculate_reward(100, RewardType::MilestoneReached, 0), Ok(18));
    assert_eq!(token.calculate_reward(10, RewardType::ChallengeCompleted, 0), Ok(20));
    assert_eq!(token.calculate_reward(60, RewardType::ChallengeCompleted, 0), Ok(22));
    assert_eq!(token.calculate_reward(100, RewardType::ChallengeCompleted, 0), Ok(24));
    assert_eq!(token.calculate_reward(10, RewardType::ReferralBonus, 0), Ok(25));
    assert_eq!(token.calculate_reward(60, RewardType::ReferralBonus, 0), Ok(27));
    assert_eq!(token.calculate_reward(100, RewardType::ReferralBonus, 0), Ok(30));
}

#[test]
fn streak_bonus_is_capped() {
    let token = token();
    assert_eq!(token.calculate_reward(10, RewardType::StreakBonus, 0), Ok(0));
    assert_eq!(token.calculate_reward(10, RewardType::StreakBonus, 7), Ok(7));
    assert_eq!(token.calculate_reward(10, RewardType::StreakBonus, 50), Ok(50));
    assert_eq!(token.calculate_reward(10, RewardType::StreakBonus, 51), Ok(50));
    assert_eq!(token.calculate_reward(10, RewardType::StreakBonus, u32::MAX), Ok(50));
    assert_eq!(token.calculate_reward(100, RewardType::StreakBonus, 9), Ok(10));
    assert_eq!(token.calculate_reward(100, RewardType::StreakBonus, 51), Ok(60));
}

#[test]
fn reward_with_a_custom_configuration() {
    let mut token = token();
    let config = RewardConfig {
        base_weekly_reward: 1_000_003,
        milestone_multiplier: 12345,
        completion_multiplier: 0,
        streak_bonus_per_week: 7,
        max_streak_bonus: 20,
        referral_reward: -40,
        min_contribution_for_reward: -100,
    };
    assert_eq!(token.update_reward_config(alice(), config), Err(TokenError::NotAuthorized));
    assert_eq!(token.update_reward_config(admin(), config), Ok(()));
    assert_eq!(token.get_reward_config(), Ok(config));
    // 1_000_003 * 12345 / 10000 = 1234503, times 1.0
    assert_eq!(token.calculate_reward(0, RewardType::MilestoneReached, 0), Ok(1_234_503));
    // 1234503 * 11000 / 10000 = 1357953.3
    assert_eq!(token.calculate_reward(50, RewardType::MilestoneReached, 0), Ok(1_357_953));
    assert_eq!(token.calculate_reward(50, RewardType::ChallengeCompleted, 0), Ok(0));
    assert_eq!(token.calculate_reward(0, RewardType::StreakBonus, 2), Ok(14));
    assert_eq!(token.calculate_reward(0, RewardType::StreakBonus, 3), Ok(20));
    // -40 * 11000 / 10000 = -44; -40 * 12000 / 10000 = -48
    assert_eq!(token.calculate_reward(50, RewardType::ReferralBonus, 0), Ok(-44));
    assert_eq!(token.calculate_reward(-100, RewardType::ReferralBonus, 0), Ok(-40));
    assert_eq!(token.calculate_reward(-101, RewardType::ReferralBonus, 0), Ok(0));
}

#[test]
fn negative_rewards_are_rounded_down() {
    let mut token = token();
    let config = RewardConfig {
        base_weekly_reward: -7,
        milestone_multiplier: 15000,
        completion_multiplier: 20000,
        streak_bonus_per_week: 1,
        max_streak_bonus: 50,
        referral_reward: 25,
        min_contribution_for_reward: 0,
    };
    assert_eq!(token.update_reward_config(admin(), config), Ok(()));
    // -7 * 1.5 = -10.5, rounded down to -11; -11 * 1.1 = -12.1, rounded down to -13
    assert_eq!(token.calculate_reward(0, RewardType::MilestoneReached, 0), Ok(-11));
    assert_eq!(token.calculate_reward(50, RewardType::MilestoneReached, 0), Ok(-13));
}

#[test]
fn reward_that_cannot_be_computed() {
    let mut token = token();
    let config = RewardConfig {
        base_weekly_reward: i128::MAX,
        milestone_multiplier: 15000,
        completion_multiplier: 1,
        streak_bonus_per_week: i128::MAX,
        max_streak_bonus: 50,
        referral_reward: 25,
        min_contribution_for_reward: 10,
    };
    assert_eq!(token.update_reward_config(admin(), config), Ok(()));
    assert_eq!(
        token.calculate_reward(10, RewardType::WeeklyContribution, 0),
        Err(TokenError::ArithmeticError)
    );
    assert_eq!(
        token.calculate_reward(10, RewardType::MilestoneReached, 0),
        Err(TokenError::ArithmeticError)
    );
    assert_eq!(token.calculate_reward(10, RewardType::StreakBonus, 2), Err(TokenError::ArithmeticError));
    assert_eq!(token.calculate_reward(10, RewardType::StreakBonus, 1), Ok(50));
    assert_eq!(token.calculate_reward(9, RewardType::StreakBonus, 2), Ok(0));
    assert_eq!(token.calculate_reward(10, RewardType::ReferralBonus, 0), Ok(25));
}

#[test]
fn uninitialized_token_has_defaults_and_no_configuration() {
    let token = SaveCoinToken::new();
    assert_eq!(token.name(), "SaveCoin");
    assert_eq!(token.symbol(), "SAVE");
    assert_eq!(token.decimals(), 7);
    assert_eq!(token.total_supply(), 0);
    assert_eq!(token.get_reward_config(), Err(TokenError::RewardConfigNotSet));
    assert_eq!(
        token.calculate_reward(100, RewardType::WeeklyContribution, 0),
        Err(TokenError::RewardConfigNotSet)
    );
    assert_eq!(token.balance(alice()), 0);
    assert!(token.get_minters().is_empty());
    assert_eq!(token.get_total_rewards(), 0);
}

#[test]
fn token_is_initialized_once() {
    let mut token = SaveCoinToken::new();
    assert_eq!(token.add_minter(admin(), minter()), Err(TokenError::NotAuthorized));
    assert_eq!(token.initialize(admin(), "Coin".to_string(), "CN".to_string(), 3), Ok(()));
    assert_eq!(
        token.initialize(alice(), "Other".to_string(), "OT".to_string(), 9),
        Err(TokenError::AlreadyInitialized)
    );
    assert_eq!(token.admin, Some(admin()));
    assert_eq!(token.name(), "Coin");
    assert_eq!(token.symbol(), "CN");
    assert_eq!(token.decimals(), 3);
    assert_eq!(token.total_supply(), 0);
}

#[test]
fn minters_are_added_once_and_removed() {
    let mut token = token();
    assert_eq!(token.add_minter(alice(), minter()), Err(TokenError::NotAuthorized));
    assert!(!token.is_minter(minter()));
    assert_eq!(token.add_minter(admin(), minter()), Ok(()));
    assert_eq!(token.add_minter(admin(), bob()), Ok(()));
    assert_eq!(token.add_minter(admin(), minter()), Ok(()));
    assert_eq!(token.get_minters(), &vec![minter(), bob()]);
    assert!(token.is_minter(minter()));
    assert_eq!(token.remove_minter(bob(), minter()), Err(TokenError::NotAuthorized));
    assert_eq!(token.remove_minter(admin(), carol()), Ok(()));
    assert_eq!(token.get_minters(), &vec![minter(), bob()]);
    assert_eq!(token.remove_minter(admin(), minter()), Ok(()));
    assert_eq!(token.get_minters(), &vec![bob()]);
    assert!(!token.is_minter(minter()));
}

#[test]
fn mint_reward_applies_the_multiplier() {
    let mut token = token();
    assert_eq!(token.add_minter(admin(), minter()), Ok(()));
    let minted = token.mint_reward(minter(), alice(), 333, RewardType::StreakBonus, 4, 15000, 99);
    assert_eq!(minted, Ok(499));
    assert_eq!(token.balance(alice()), 499);
    assert_eq!(token.total_supply(), 499);
    assert_eq!(token.get_total_rewards(), 499);
    assert_eq!(token.get_reward_stats(RewardType::StreakBonus), 499);
    assert_eq!(token.get_reward_stats(RewardType::WeeklyContribution), 0);
    let record = RewardRecord {
        recipient: alice(),
        amount: 499,
        reward_type: RewardType::StreakBonus,
        challenge_id: 4,
        timestamp: 99,
        multiplier: 15000,
    };
    assert_eq!(token.get_reward_history(alice()), vec![record]);
    assert!(token.get_reward_history(bob()).is_empty());
    let again = token.mint_reward(minter(), bob(), 10, RewardType::ReferralBonus, 5, 10000, 100);
    assert_eq!(again, Ok(10));
    let third = token.mint_reward(minter(), alice(), 1, RewardType::StreakBonus, 6, 9999, 101);
    assert_eq!(third, Ok(0));
    assert_eq!(token.total_supply(), 509);
    assert_eq!(token.balance(alice()) + token.balance(bob()), token.total_supply());
    assert_eq!(token.get_reward_stats(RewardType::StreakBonus), 499);
    assert_eq!(token.get_reward_stats(RewardType::ReferralBonus), 10);
    assert_eq!(token.get_reward_history(alice()).len(), 2);
    assert_eq!(token.reward_history.len(), 3);
}

#[test]
fn mint_reward_errors() {
    let mut token = token();
    assert_eq!(
        token.mint_reward(minter(), alice(), 10, RewardType::WeeklyContribution, 1, 10000, 0),
        Err(TokenError::NotMinter)
    );
    assert_eq!(
        token.mint_reward(admin(), alice(), 10, RewardType::WeeklyContribution, 1, 10000, 0),
        Err(TokenError::NotMinter)
    );
    assert_eq!(token.add_minter(admin(), minter()), Ok(()));
    assert_eq!(
        token.mint_reward(minter(), alice(), 0, RewardType::WeeklyContribution, 1, 10000, 0),
        Err(TokenError::InvalidAmount)
    );
    assert_eq!(
        token.mint_reward(minter(), alice(), -3, RewardType::WeeklyContribution, 1, 10000, 0),
        Err(TokenError::InvalidAmount)
    );
    assert_eq!(
        token.mint_reward(minter(), alice(), i128::MAX, RewardType::WeeklyContribution, 1, 2, 0),
        Err(TokenError::ArithmeticError)
    );
    assert_eq!(token.balance(alice()), 0);
    assert_eq!(token.total_supply(), 0);
    assert!(token.reward_history.is_empty());
    token.metadata = None;
    assert_eq!(
        token.mint_reward(minter(), alice(), 10, RewardType::WeeklyContribution, 1, 10000, 0),
        Err(TokenError::NotInitialized)
    );
}

#[test]
fn transfer_moves_the_amount() {
    let mut token = funded_token();
    assert_eq!(token.transfer(alice(), bob(), 400), Ok(()));
    assert_eq!(token.balance(alice()), 600);
    assert_eq!(token.balance(bob()), 400);
    assert_eq!(token.transfer(alice(), bob(), 0), Ok(()));
    assert_eq!(token.transfer(alice(), bob(), -1), Err(TokenError::InvalidAmount));
    assert_eq!(token.transfer(alice(), bob(), 601), Err(TokenError::InsufficientBalance));
    assert_eq!(token.transfer(carol(), bob(), 1), Err(TokenError::InsufficientBalance));
    assert_eq!(token.transfer(alice(), alice(), 600), Ok(()));
    assert_eq!(token.balance(alice()), 600);
    assert_eq!(token.transfer(alice(), bob(), 600), Ok(()));
    assert_eq!(token.balance(alice()), 0);
    assert_eq!(token.balance(bob()), 1000);
    assert_eq!(token.total_supply(), 1000);
}

#[test]
fn allowance_is_spent_by_transfer_from() {
    let mut token = funded_token();
    assert_eq!(token.allowance(alice(), bob()), 0);
    assert_eq!(token.approve(alice(), bob(), -1), Err(TokenError::InvalidAmount));
    assert_eq!(token.approve(alice(), bob(), 300), Ok(()));
    assert_eq!(token.allowance(alice(), bob()), 300);
    assert_eq!(token.allowance(bob(), alice()), 0);
    assert_eq!(
        token.transfer_from(bob(), alice(), carol(), 301),
        Err(TokenError::InsufficientAllowance)
    );
    assert_eq!(
        token.transfer_from(carol(), alice(), carol(), 1),
        Err(TokenError::InsufficientAllowance)
    );
    assert_eq!(token.transfer_from(bob(), alice(), carol(), -1), Err(TokenError::InvalidAmount));
    assert_eq!(token.transfer_from(bob(), alice(), carol(), 0), Ok(()));
    assert_eq!(token.transfer_from(bob(), alice(), carol(), 100), Ok(()));
    assert_eq!(token.allowance(alice(), bob()), 200);
    assert_eq!(token.balance(alice()), 900);
    assert_eq!(token.balance(carol()), 100);
    assert_eq!(token.balance(bob()), 0);
    assert_eq!(token.approve(alice(), bob(), 5000), Ok(()));
    assert_eq!(
        token.transfer_from(bob(), alice(), carol(), 901),
        Err(TokenError::InsufficientBalance)
    );
    assert_eq!(token.allowance(alice(), bob()), 5000);
    assert_eq!(token.balance(alice()), 900);
}

#[test]
fn token_error_and_reward_codes() {
    assert_eq!(TokenError::NotAuthorized.code(), 1);
    assert_eq!(TokenError::InvalidAmount.code(), 4);
    assert_eq!(TokenError::NotMinter.code(), 8);
    assert_eq!(TokenError::RewardConfigNotSet.code(), 10);
    assert_eq!(TokenError::ArithmeticError.code(), 11);
    assert_eq!(RewardType::WeeklyContribution.code(), 1);
    assert_eq!(RewardType::ReferralBonus.code(), 5);
}
