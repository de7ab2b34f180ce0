use stellarsave::account::AccountId;
use stellarsave::reward_token::RewardToken;
use stellarsave::token::TokenError;

fn admin() -> AccountId {
    AccountId::account(1, 1)
}

fn alice() -> AccountId {
    AccountId::account(1, 2)
}

fn bob() -> AccountId {
    AccountId::contract(1, 2)
}

fn token() -> RewardToken {
    RewardToken::initialize(admin(), "Reward".to_string(), "RWD".to_string(), 18, 1_000_000).unwrap()
}

#[test]
fn initial_supply_belongs_to_the_administrator() {
    let token = token();
    assert_eq!(token.name(), "Reward");
    assert_eq!(token.symbol(), "RWD");
    assert_eq!(token.decimals(), 18);
    assert_eq!(token.total_supply(), 1_000_000);
    assert_eq!(token.balance_of(admin()), 1_000_000);
    assert_eq!(token.balance_of(alice()), 0);
    assert_eq!(token.allowance(admin(), alice()), 0);
}

#[test]
fn initialize_rejects_invalid_parameters() {
    let many_decimals = RewardToken::initialize(admin(), "R".to_string(), "R".to_string(), 19, 1);
    assert_eq!(many_decimals.err(), Some(TokenError::InvalidAmount));
    let no_supply = RewardToken::initialize(admin(), "R".to_string(), "R".to_string(), 18, 0);
    assert_eq!(no_supply.err(), Some(TokenError::InvalidAmount));
    let negative = RewardToken::initialize(admin(), "R".to_string(), "R".to_string(), 0, -1);
    assert_eq!(negative.err(), Some(TokenError::InvalidAmount));
    assert!(RewardToken::initialize(admin(), "R".to_string(), "R".to_string(), 0, 1).is_ok());
}

#[test]
fn accounts_and_contracts_with_the_same_key_differ() {
    let mut token = token();
    assert_eq!(token.transfer(admin(), alice(), 10), Ok(true));
    assert_eq!(token.balance_of(alice()), 10);
    assert_eq!(token.balance_of(bob()), 0);
}

#[test]
fn plain_transfer() {
    let mut token = token();
    assert_eq!(token.transfer(admin(), alice(), 250), Ok(true));
    assert_eq!(token.balance_of(admin()), 999_750);
    assert_eq!(token.balance_of(alice()), 250);
    assert_eq!(token.transfer(admin(), alice(), 0), Err(TokenError::InvalidAmount));
    assert_eq!(token.transfer(admin(), alice(), -4), Err(TokenError::InvalidAmount));
    assert_eq!(token.transfer(alice(), bob(), 251), Err(TokenError::InsufficientBalance));
    assert_eq!(token.transfer(alice(), alice(), 250), Ok(true));
    assert_eq!(token.balance_of(alice()), 250);
    assert_eq!(token.total_supply(), 1_000_000);
}

#[test]
fn approved_transfer() {
    let mut token = token();
    assert_eq!(token.approve(admin(), alice(), -1), Err(TokenError::InvalidAmount));
    assert_eq!(token.approve(admin(), alice(), 0), Ok(true));
    assert_eq!(token.approve(admin(), alice(), 500), Ok(true));
    assert_eq!(token.allowance(admin(), alice()), 500);
    assert_eq!(token.transfer_from(alice(), admin(), bob(), 0), Err(TokenError::InvalidAmount));
    assert_eq!(
        token.transfer_from(alice(), admin(), bob(), 501),
        Err(TokenError::InsufficientAllowance)
    );
    assert_eq!(token.transfer_from(alice(), admin(), bob(), 200), Ok(true));
    assert_eq!(token.allowance(admin(), alice()), 300);
    assert_eq!(token.balance_of(bob()), 200);
    assert_eq!(token.balance_of(admin()), 999_800);
    assert_eq!(token.approve(bob(), alice(), 1000), Ok(true));
    assert_eq!(
        token.transfer_from(alice(), bob(), admin(), 201),
        Err(TokenError::InsufficientBalance)
    );
}

#[test]
fn mint_and_burn_change_the_supply() {
    let mut token = token();
    assert_eq!(token.mint(alice(), 0), Err(TokenError::InvalidAmount));
    assert_eq!(token.mint(alice(), 40), Ok(true));
    assert_eq!(token.balance_of(alice()), 40);
    assert_eq!(token.total_supply(), 1_000_040);
    assert_eq!(token.mint(alice(), i128::MAX), Err(TokenError::ArithmeticError));
    assert_eq!(token.burn(alice(), 0), Err(TokenError::InvalidAmount));
    assert_eq!(token.burn(alice(), 41), Err(TokenError::InsufficientBalance));
    assert_eq!(token.burn(alice(), 15), Ok(true));
    assert_eq!(token.balance_of(alice()), 25);
    assert_eq!(token.total_supply(), 1_000_025);
    assert_eq!(token.balance_of(admin()) + token.balance_of(alice()), token.total_supply());
}
