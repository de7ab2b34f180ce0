use soroban_sdk::testutils::EnvTestConfig;
use soroban_sdk::Env;
use stellarsave::account::AccountId;
use stellarsave::challenge::SavingsError;
use stellarsave::digest::{be_bytes_of, derive_challenge_id, same_id};
use stellarsave::group_challenge::SavingsChallenge;
use stellarsave::milestones::{evaluate_milestones, ChallengeType, Deposit, Milestone, SocialFeatures};

const DAY: u64 = 86400;
const WEEK: u64 = 604800;

const FIRST_ID: [u8; 32] = [
    223, 63, 97, 152, 4, 169, 47, 219, 64, 87, 25, 45, 196, 61, 215, 72, 234, 119, 138, 220, 82,
    188, 73, 140, 232, 5, 36, 192, 20, 184, 17, 25,
];

const SECOND_ID: [u8; 32] = [
    180, 7, 17, 168, 140, 112, 57, 117, 111, 184, 167, 56, 39, 234, 190, 44, 15, 229, 160, 52, 108,
    167, 224, 161, 4, 173, 192, 252, 118, 79, 82, 141,
];

fn env() -> Env {
    Env::new_with_config(EnvTestConfig { capture_snapshot_at_drop: false })
}

fn admin() -> AccountId {
    AccountId::account(0, 1)
}

fn creator() -> AccountId {
    AccountId::account(0, 20)
}

fn alice() -> AccountId {
    AccountId::account(0, 21)
}

fn bob() -> AccountId {
    AccountId::account(0, 22)
}

fn vault() -> AccountId {
    AccountId::contract(3, 1)
}

fn reward_token() -> AccountId {
    AccountId::contract(3, 2)
}

fn features() -> SocialFeatures {
    SocialFeatures { public_leaderboard: true, enable_cheering: false, allow_group_milestone: true }
}

fn create(
    contract: &mut SavingsChallenge,
    target: i128,
    days: u32,
    reward: u32,
    now: u64,
) -> Result<[u8; 32], SavingsError> {
    contract.create_challenge(
        &env(),
        creator(),
        target,
        days,
        reward,
        vault(),
        reward_token(),
        0,
        ChallengeType::Fixed,
        features(),
        now,
    )
}

fn contract_with_members(target: i128, days: u32, reward: u32) -> (SavingsChallenge, [u8; 32]) {
    let mut contract = SavingsChallenge::initialize(admin());
    let id = create(&mut contract, target, days, reward, 1000).unwrap();
    assert_eq!(contract.join_challenge(alice(), &id, 1000), Ok(()));
    assert_eq!(contract.join_challenge(bob(), &id, 1000), Ok(()));
    (contract, id)
}

fn milestone(target: i128, reached: bool, bonus: u32) -> Milestone {
    Milestone {
        description: "step".to_string(),
        target_amount: target,
        reached,
        reached_at: if reached { 7 } else { 0 },
        reward_bonus: bonus,
    }
}

fn flags(milestones: &[Milestone]) -> Vec<(bool, u64)> {
    milestones.iter().map(|m| (m.reached, m.reached_at)).collect()
}

#[test]
fn big_endian_bytes() {
    assert_eq!(be_bytes_of(0), vec![0, 0, 0, 0]);
    assert_eq!(be_bytes_of(1), vec![0, 0, 0, 1]);
    assert_eq!(be_bytes_of(0x01020304), vec![1, 2, 3, 4]);
    assert_eq!(be_bytes_of(u32::MAX), vec![255, 255, 255, 255]);
    assert_eq!(be_bytes_of(256), 256u32.to_be_bytes().to_vec());
}

#[test]
fn identifier_is_the_digest_of_the_counter() {
    assert_eq!(derive_challenge_id(&env(), 0), FIRST_ID);
    assert_eq!(derive_challenge_id(&env(), 1), SECOND_ID);
    assert!(same_id(&FIRST_ID, &FIRST_ID));
    assert!(!same_id(&FIRST_ID, &SECOND_ID));
    let mut other = FIRST_ID;
    other[31] ^= 1;
    assert!(!same_id(&FIRST_ID, &other));
}

#[test]
fn created_challenges_take_successive_identifiers() {
    let mut contract = SavingsChallenge::initialize(admin());
    assert_eq!(contract.total_challenges, 0);
    assert_eq!(create(&mut contract, 1000, 30, 500, 1000), Ok(FIRST_ID));
    assert_eq!(create(&mut contract, 2000, 10, 0, 2000), Ok(SECOND_ID));
    assert_eq!(contract.total_challenges, 2);
    assert_eq!(contract.entries.len(), 2);
    let challenge = contract.get_challenge(&FIRST_ID).unwrap();
    assert_eq!(challenge.id, FIRST_ID);
    assert_eq!(challenge.creator, creator());
    assert_eq!(challenge.target_amount, 1000);
    assert_eq!(challenge.group_target, 1000);
    assert_eq!(challenge.duration_days, 30);
    assert_eq!(challenge.start_time, 1000);
    assert_eq!(challenge.reward_percentage, 500);
    assert_eq!(challenge.vault_address, vault());
    assert_eq!(challenge.reward_token, reward_token());
    assert_eq!(challenge.challenge_type, ChallengeType::Fixed);
    assert_eq!(challenge.social_features, features());
    assert!(challenge.active);
    assert!(challenge.participants.is_empty());
    assert!(challenge.completed_users.is_empty());
    assert_eq!(contract.get_challenge(&SECOND_ID).unwrap().target_amount, 2000);
    assert_eq!(contract.get_challenge(&[0u8; 32]).err(), Some(SavingsError::ChallengeNotFound));
}

#[test]
fn a_challenge_is_opened_under_a_given_identifier() {
    let mut contract = SavingsChallenge::initialize(admin());
    let id = [7u8; 32];
    let opened = contract.open_challenge(
        id,
        creator(),
        1000,
        30,
        500,
        vault(),
        reward_token(),
        5,
        ChallengeType::Incremental,
        features(),
        42,
    );
    assert_eq!(opened, Ok(id));
    assert_eq!(contract.total_challenges, 1);
    let challenge = contract.get_challenge(&id).unwrap();
    assert_eq!(challenge.id, id);
    assert_eq!(challenge.start_time, 42);
    assert_eq!(challenge.min_weekly_deposit, 5);
    assert_eq!(challenge.group_target, 1000);
    assert_eq!(challenge.challenge_type, ChallengeType::Incremental);
    assert!(challenge.active);
    let targets: Vec<i128> =
        contract.get_group_milestones(&id).unwrap().iter().map(|m| m.target_amount).collect();
    assert_eq!(targets, vec![250, 500, 750]);
    let again = contract.open_challenge(
        id,
        creator(),
        2000,
        30,
        500,
        vault(),
        reward_token(),
        5,
        ChallengeType::Fixed,
        features(),
        43,
    );
    assert_eq!(again, Err(SavingsError::InvalidParameters));
    let invalid = contract.open_challenge(
        [8u8; 32],
        creator(),
        0,
        30,
        500,
        vault(),
        reward_token(),
        5,
        ChallengeType::Fixed,
        features(),
        43,
    );
    assert_eq!(invalid, Err(SavingsError::InvalidParameters));
    assert_eq!(contract.total_challenges, 1);
    assert_eq!(contract.entries.len(), 1);
    assert_eq!(contract.get_challenge(&id).unwrap().target_amount, 1000);
}

#[test]
fn an_identifier_is_given_once() {
    let mut contract = SavingsChallenge::initialize(admin());
    assert_eq!(create(&mut contract, 1000, 30, 500, 1000), Ok(FIRST_ID));
    assert_eq!(contract.join_challenge(alice(), &FIRST_ID, 1000), Ok(()));
    contract.total_challenges = 0;
    assert_eq!(create(&mut contract, 5, 1, 0, 2000), Err(SavingsError::InvalidParameters));
    assert_eq!(contract.total_challenges, 0);
    assert_eq!(contract.entries.len(), 1);
    assert_eq!(contract.get_challenge(&FIRST_ID).unwrap().target_amount, 1000);
    assert_eq!(contract.get_challenge(&FIRST_ID).unwrap().participants, vec![alice()]);
}

#[test]
fn new_challenge_has_three_group_milestones() {
    let mut contract = SavingsChallenge::initialize(admin());
    let id = create(&mut contract, 1001, 30, 500, 1000).unwrap();
    let milestones = contract.get_group_milestones(&id).unwrap();
    let summary: Vec<(&str, i128, bool, u64, u32)> = milestones
        .iter()
        .map(|m| (m.description.as_str(), m.target_amount, m.reached, m.reached_at, m.reward_bonus))
        .collect();
    assert_eq!(summary, vec![
        ("25% Complete", 250, false, 0, 50),
        ("50% Complete", 500, false, 0, 100),
        ("75% Complete", 750, false, 0, 150),
    ]);
}

#[test]
fn create_challenge_validates_its_parameters() {
    let mut contract = SavingsChallenge::initialize(admin());
    let invalid = Err(SavingsError::InvalidParameters);
    assert_eq!(create(&mut contract, 0, 30, 500, 0), invalid);
    assert_eq!(create(&mut contract, -1, 30, 500, 0), invalid);
    assert_eq!(create(&mut contract, 1000, 0, 500, 0), invalid);
    assert_eq!(create(&mut contract, 1000, 30, 10001, 0), invalid);
    let negative_minimum = contract.create_challenge(
        &env(),
        creator(),
        1000,
        30,
        500,
        vault(),
        reward_token(),
        -1,
        ChallengeType::Custom,
        features(),
        0,
    );
    assert_eq!(negative_minimum, invalid);
    assert_eq!(create(&mut contract, i128::MAX, 30, 500, 0), Err(SavingsError::ArithmeticError));
    assert_eq!(contract.total_challenges, 0);
    assert!(contract.entries.is_empty());
    assert_eq!(create(&mut contract, 1000, 1, 10000, 0), Ok(FIRST_ID));
}

#[test]
fn joining_opens_progress_and_copies_the_milestones() {
    let (mut contract, id) = contract_with_members(1000, 30, 500);
    let challenge = contract.get_challenge(&id).unwrap();
    assert_eq!(challenge.participants, vec![alice(), bob()]);
    assert_eq!(challenge.group_target, 3000);
    let progress = contract.get_user_progress(&id, alice()).unwrap();
    assert_eq!(progress.challenge_id, id);
    assert_eq!(progress.user, alice());
    assert_eq!(progress.current_amount, 0);
    assert_eq!(progress.last_deposit_time, 1000);
    assert_eq!(progress.streak_weeks, 0);
    assert!(progress.deposits_history.is_empty());
    assert!(!progress.completed);
    let targets: Vec<i128> =
        contract.get_user_milestones(&id, alice()).unwrap().iter().map(|m| m.target_amount).collect();
    assert_eq!(targets, vec![250, 500, 750]);
    assert_eq!(contract.join_challenge(alice(), &id, 2000), Err(SavingsError::InvalidParameters));
    assert_eq!(contract.join_challenge(alice(), &[1u8; 32], 2000), Err(SavingsError::ChallengeNotFound));
    contract.entries[0].challenge.active = false;
    assert_eq!(contract.join_challenge(creator(), &id, 2000), Err(SavingsError::ChallengeInactive));
    assert_eq!(contract.get_user_progress(&id, creator()).err(), Some(SavingsError::NotParticipant));
    assert_eq!(contract.get_user_milestones(&id, creator()).err(), Some(SavingsError::NotParticipant));
    assert_eq!(contract.get_user_challenges(alice()), vec![id]);
    assert!(contract.get_user_challenges(creator()).is_empty());
}

#[test]
fn challenges_are_listed_in_the_order_of_joining() {
    let mut contract = SavingsChallenge::initialize(admin());
    let first = create(&mut contract, 1000, 30, 500, 0).unwrap();
    let second = create(&mut contract, 1000, 30, 500, 0).unwrap();
    assert_eq!(contract.join_challenge(alice(), &second, 1), Ok(()));
    assert_eq!(contract.join_challenge(bob(), &first, 2), Ok(()));
    assert_eq!(contract.join_challenge(alice(), &first, 3), Ok(()));
    assert_eq!(contract.get_user_challenges(alice()), vec![second, first]);
    assert_eq!(contract.get_user_challenges(bob()), vec![first]);
}

#[test]
fn deposit_updates_progress_and_milestones() {
    let (mut contract, id) = contract_with_members(1000, 30, 500);
    let receipt = contract.deposit(alice(), &id, 300, 1000 + DAY).unwrap();
    assert_eq!(receipt.streak_achieved, None);
    assert_eq!(receipt.reached, vec![0]);
    assert_eq!(receipt.group_reached, vec![0]);
    let progress = contract.get_user_progress(&id, alice()).unwrap();
    assert_eq!(progress.current_amount, 300);
    assert_eq!(progress.last_deposit_time, 1000 + DAY);
    assert_eq!(progress.streak_weeks, 1);
    assert_eq!(progress.deposits_history, vec![Deposit {
        amount: 300,
        timestamp: 1000 + DAY,
        week_number: 1
    }]);
    assert_eq!(flags(contract.get_user_milestones(&id, alice()).unwrap()), vec![
        (true, 1000 + DAY),
        (false, 0),
        (false, 0)
    ]);
    assert_eq!(flags(contract.get_user_milestones(&id, bob()).unwrap()), vec![
        (false, 0),
        (false, 0),
        (false, 0)
    ]);
    // the group has saved 300 + 500: the half is reached, at the later time
    let receipt = contract.deposit(bob(), &id, 500, 1000 + WEEK).unwrap();
    assert_eq!(receipt.reached, vec![0, 1]);
    assert_eq!(receipt.group_reached, vec![1, 2]);
    assert_eq!(flags(contract.get_group_milestones(&id).unwrap()), vec![
        (true, 1000 + DAY),
        (true, 1000 + WEEK),
        (true, 1000 + WEEK)
    ]);
    assert_eq!(contract.get_user_progress(&id, bob()).unwrap().deposits_history[0].week_number, 2);
    // reached milestones stay as they are
    let receipt = contract.deposit(alice(), &id, 1, 1000 + 2 * WEEK).unwrap();
    assert!(receipt.reached.is_empty());
    assert!(receipt.group_reached.is_empty());
    assert_eq!(flags(contract.get_user_milestones(&id, alice()).unwrap())[0], (true, 1000 + DAY));
    assert_eq!(flags(contract.get_group_milestones(&id).unwrap())[0], (true, 1000 + DAY));
}

#[test]
fn deposit_errors() {
    let (mut contract, id) = contract_with_members(1000, 30, 500);
    assert_eq!(contract.deposit(alice(), &id, 0, 2000).err(), Some(SavingsError::InsufficientAmount));
    assert_eq!(contract.deposit(alice(), &id, -9, 2000).err(), Some(SavingsError::InsufficientAmount));
    assert_eq!(
        contract.deposit(alice(), &[9u8; 32], 5, 2000).err(),
        Some(SavingsError::ChallengeNotFound)
    );
    assert_eq!(contract.deposit(creator(), &id, 5, 2000).err(), Some(SavingsError::NotParticipant));
    assert_eq!(contract.deposit(alice(), &id, 5, 2000).err(), None);
    assert_eq!(
        contract.deposit(bob(), &id, i128::MAX, 2000).err(),
        Some(SavingsError::ArithmeticError)
    );
    assert_eq!(contract.get_user_progress(&id, bob()).unwrap().current_amount, 0);
    contract.entries[0].challenge.active = false;
    assert_eq!(contract.deposit(alice(), &id, 5, 2000).err(), Some(SavingsError::ChallengeInactive));
    assert_eq!(contract.get_user_progress(&id, alice()).unwrap().current_amount, 5);
}

#[test]
fn streak_of_four_is_announced() {
    let (mut contract, id) = contract_with_members(1000, 60, 500);
    let mut announced = Vec::new();
    for k in 0..5u64 {
        let receipt = contract.deposit(alice(), &id, 10, 1000 + DAY + k * WEEK).unwrap();
        announced.push(receipt.streak_achieved);
    }
    assert_eq!(announced, vec![None, None, None, Some(4), None]);
    assert_eq!(contract.get_user_progress(&id, alice()).unwrap().streak_weeks, 5);
    // a gap of three weeks starts the streak anew
    let receipt = contract.deposit(alice(), &id, 10, 1000 + DAY + 7 * WEEK).unwrap();
    assert_eq!(receipt.streak_achieved, None);
    assert_eq!(contract.get_user_progress(&id, alice()).unwrap().streak_weeks, 1);
}

#[test]
fn milestones_are_evaluated_once() {
    let mut milestones =
        vec![milestone(100, false, 1), milestone(50, true, 2), milestone(300, false, 3)];
    assert_eq!(evaluate_milestones(&mut milestones, 100, 40), vec![0]);
    assert_eq!(flags(&milestones), vec![(true, 40), (true, 7), (false, 0)]);
    assert!(evaluate_milestones(&mut milestones, 0, 50).is_empty());
    assert_eq!(flags(&milestones), vec![(true, 40), (true, 7), (false, 0)]);
    assert_eq!(evaluate_milestones(&mut milestones, 1000, 60), vec![2]);
    assert_eq!(flags(&milestones), vec![(true, 40), (true, 7), (true, 60)]);
    assert!(evaluate_milestones(&mut milestones, i128::MIN, 70).is_empty());
    assert_eq!(flags(&milestones), vec![(true, 40), (true, 7), (true, 60)]);
    let mut none: Vec<Milestone> = Vec::new();
    assert!(evaluate_milestones(&mut none, 5, 5).is_empty());
}

#[test]
fn reached_milestones_are_reported_by_ascending_target() {
    let mut milestones = vec![
        milestone(100, false, 1),
        milestone(50, true, 2),
        milestone(300, false, 3),
        milestone(20, false, 4),
        milestone(100, false, 5),
        milestone(99, false, 6),
    ];
    assert_eq!(evaluate_milestones(&mut milestones, 100, 9), vec![3, 5, 0, 4]);
    assert_eq!(flags(&milestones), vec![
        (true, 9),
        (true, 7),
        (false, 0),
        (true, 9),
        (true, 9),
        (true, 9)
    ]);
}

#[test]
fn added_milestones_belong_to_the_group() {
    let (mut contract, id) = contract_with_members(1000, 30, 500);
    assert_eq!(
        contract.create_milestone(alice(), &id, "Full".to_string(), 1000, 200),
        Err(SavingsError::NotAuthorized)
    );
    assert_eq!(
        contract.create_milestone(creator(), &[4u8; 32], "Full".to_string(), 1000, 200),
        Err(SavingsError::ChallengeNotFound)
    );
    assert_eq!(contract.create_milestone(creator(), &id, "Full".to_string(), 1000, 200), Ok(()));
    let group = contract.get_group_milestones(&id).unwrap();
    assert_eq!(group.len(), 4);
    assert_eq!(group[3].description, "Full");
    assert_eq!(group[3].target_amount, 1000);
    assert_eq!(group[3].reward_bonus, 200);
    assert!(!group[3].reached);
    assert_eq!(contract.get_user_milestones(&id, alice()).unwrap().len(), 3);
    assert_eq!(contract.join_challenge(creator(), &id, 5000), Ok(()));
    assert_eq!(contract.get_user_milestones(&id, creator()).unwrap().len(), 4);
}

#[test]
fn completion_pays_the_target_at_the_raised_rate() {
    let (mut contract, id) = contract_with_members(1000, 30, 500);
    for k in 0..4u64 {
        assert!(contract.deposit(alice(), &id, 250, 1000 + DAY + k * WEEK).is_ok());
    }
    let end = 1000 + 30 * DAY;
    assert_eq!(
        contract.complete_challenge(alice(), &id, end - 1),
        Err(SavingsError::ContributionTooEarly)
    );
    assert_eq!(contract.complete_challenge(bob(), &id, end), Err(SavingsError::GoalNotReached));
    assert_eq!(contract.complete_challenge(creator(), &id, end), Err(SavingsError::NotParticipant));
    assert_eq!(
        contract.complete_challenge(alice(), &[2u8; 32], end),
        Err(SavingsError::ChallengeNotFound)
    );
    // 500 + (50 + 100 + 150) + (4 / 4) * 50 = 850 basis points of 1000
    assert_eq!(contract.complete_challenge(alice(), &id, end), Ok(85));
    assert!(contract.get_user_progress(&id, alice()).unwrap().completed);
    assert_eq!(contract.get_challenge(&id).unwrap().completed_users, vec![alice()]);
    assert_eq!(contract.complete_challenge(alice(), &id, end), Err(SavingsError::AlreadyFinalized));
    contract.entries[0].challenge.active = false;
    assert_eq!(contract.complete_challenge(alice(), &id, end), Err(SavingsError::ChallengeInactive));
}

#[test]
fn completion_reward_is_rounded_toward_zero() {
    let (mut contract, id) = contract_with_members(999, 1, 333);
    assert!(contract.deposit(bob(), &id, 999, 1000).is_ok());
    // 333 + 300 basis points of 999 = 63.2367
    assert_eq!(contract.complete_challenge(bob(), &id, 1000 + DAY), Ok(63));
}
