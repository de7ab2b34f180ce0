use soroban_sdk::testutils::EnvTestConfig;
use soroban_sdk::Env;
use stellarsave::account::AccountId;
use stellarsave::challenge::{ParticipantStats, SavingsError};
use stellarsave::savings_contract::SavingsChallengeContract;

const WEEK: u64 = 604800;
const DAY: u64 = 86400;

fn admin() -> AccountId {
    AccountId::account(0, 1)
}

fn creator() -> AccountId {
    AccountId::account(0, 10)
}

fn alice() -> AccountId {
    AccountId::account(0, 11)
}

fn bob() -> AccountId {
    AccountId::account(0, 12)
}

fn stranger() -> AccountId {
    AccountId::account(9, 99)
}

fn new_challenge(
    contract: &mut SavingsChallengeContract,
    goal: i128,
    weekly: i128,
    participants: Vec<AccountId>,
    weeks: u32,
    now: u64,
) -> Result<u32, SavingsError> {
    contract.create_challenge(
        creator(),
        "Vacation".to_string(),
        "Save for a trip".to_string(),
        goal,
        weekly,
        participants,
        weeks,
        true,
        false,
        now,
    )
}

fn contract_with_challenge(goal: i128, weeks: u32, now: u64) -> SavingsChallengeContract {
    let mut contract = SavingsChallengeContract::initialize(admin());
    assert_eq!(new_challenge(&mut contract, goal, 100, vec![alice(), bob()], weeks, now), Ok(1));
    contract
}

#[test]
fn initialize_sets_admin_and_info() {
    let contract = SavingsChallengeContract::initialize(admin());
    assert_eq!(contract.admin, admin());
    assert_eq!(contract.next_challenge_id, 1);
    assert!(contract.books.is_empty());
    assert_eq!(
        contract.get_contract_info(),
        ("StellarSave Challenge Contract".to_string(), "1.0.0".to_string())
    );
}

#[test]
fn created_challenge_has_deadline_and_zeroed_stats() {
    let contract = contract_with_challenge(1000, 4, 5000);
    let challenge = contract.get_challenge(1).unwrap();
    assert_eq!(challenge.id, 1);
    assert_eq!(challenge.creator, creator());
    assert_eq!(challenge.name, "Vacation");
    assert_eq!(challenge.goal_amount, 1000);
    assert_eq!(challenge.weekly_amount, 100);
    assert_eq!(challenge.current_amount, 0);
    assert_eq!(challenge.participants, vec![alice(), bob()]);
    assert_eq!(challenge.created_at, 5000);
    assert_eq!(challenge.deadline, 5000 + 4 * WEEK);
    assert!(challenge.is_active);
    assert!(challenge.min_weekly_required);
    assert!(!challenge.allow_early_withdrawal);
    assert!(contract.get_contributions(1).unwrap().is_empty());
    let zero = ParticipantStats {
        total_contributed: 0,
        contribution_count: 0,
        last_contribution: 0,
        current_streak: 0,
    };
    assert_eq!(contract.get_participant_stats(1, alice()), Ok(zero));
    assert_eq!(contract.get_participant_stats(1, stranger()), Ok(zero));
    assert_eq!(contract.books[0].stats.entries.len(), 2);
    assert_eq!(contract.next_challenge_id, 2);
}

#[test]
fn challenges_are_numbered_from_one() {
    let mut contract = SavingsChallengeContract::initialize(admin());
    assert_eq!(new_challenge(&mut contract, 10, 1, vec![alice()], 1, 0), Ok(1));
    assert_eq!(new_challenge(&mut contract, 10, 1, vec![bob()], 1, 0), Ok(2));
    assert_eq!(new_challenge(&mut contract, 10, 1, vec![alice(), bob()], 1, 0), Ok(3));
    assert_eq!(contract.get_user_challenges(alice()), vec![1, 3]);
    assert_eq!(contract.get_user_challenges(bob()), vec![2, 3]);
    assert!(contract.get_user_challenges(stranger()).is_empty());
}

#[test]
fn repeated_participants_take_part_once() {
    let mut contract = SavingsChallengeContract::initialize(admin());
    let listed = vec![alice(), bob(), alice(), alice(), bob()];
    assert_eq!(new_challenge(&mut contract, 10, 1, listed, 1, 0), Ok(1));
    assert_eq!(contract.get_challenge(1).unwrap().participants, vec![alice(), bob()]);
    assert_eq!(contract.get_challenge_stats(1), Ok((2, 0, 0, 0)));
}

#[test]
fn create_challenge_validates_parameters() {
    let mut contract = SavingsChallengeContract::initialize(admin());
    let invalid = Err(SavingsError::InvalidParameters);
    assert_eq!(new_challenge(&mut contract, 0, 100, vec![alice()], 4, 0), invalid);
    assert_eq!(new_challenge(&mut contract, -1, 100, vec![alice()], 4, 0), invalid);
    assert_eq!(new_challenge(&mut contract, 1000, 0, vec![alice()], 4, 0), invalid);
    assert_eq!(new_challenge(&mut contract, 1000, 100, vec![alice()], 0, 0), invalid);
    assert_eq!(new_challenge(&mut contract, 1000, 100, vec![alice()], 105, 0), invalid);
    assert_eq!(new_challenge(&mut contract, 1000, 100, vec![], 4, 0), invalid);
    let short_name = contract.create_challenge(
        creator(),
        "ab".to_string(),
        "".to_string(),
        1000,
        100,
        vec![alice()],
        4,
        false,
        false,
        0,
    );
    assert_eq!(short_name, invalid);
    assert!(contract.books.is_empty());
    assert_eq!(contract.next_challenge_id, 1);
    assert_eq!(new_challenge(&mut contract, 1000, 100, vec![alice()], 104, 0), Ok(1));
    assert_eq!(contract.get_challenge(1).unwrap().deadline, 104 * WEEK);
    let three_bytes = contract.create_challenge(
        creator(),
        "abc".to_string(),
        "".to_string(),
        1,
        1,
        vec![alice()],
        1,
        false,
        false,
        0,
    );
    assert_eq!(three_bytes, Ok(2));
}

#[test]
fn create_challenge_with_unreachable_deadline_fails() {
    let mut contract = SavingsChallengeContract::initialize(admin());
    assert_eq!(
        new_challenge(&mut contract, 1000, 100, vec![alice()], 1, u64::MAX - WEEK + 1),
        Err(SavingsError::ArithmeticError)
    );
    assert_eq!(new_challenge(&mut contract, 1000, 100, vec![alice()], 1, u64::MAX - WEEK), Ok(1));
}

#[test]
fn contribution_is_logged_and_summed() {
    let mut contract = contract_with_challenge(1000, 4, 1000);
    assert_eq!(contract.contribute(1, alice(), 300, 1000 + DAY), Ok(false));
    assert_eq!(contract.contribute(1, bob(), 200, 1000 + WEEK), Ok(false));
    assert_eq!(contract.contribute(1, alice(), 500, 1000 + 2 * WEEK + 5), Ok(true));
    let challenge = contract.get_challenge(1).unwrap();
    assert_eq!(challenge.current_amount, 1000);
    assert!(challenge.is_active);
    let log = contract.get_contributions(1).unwrap();
    assert_eq!(log.len(), 3);
    assert_eq!(log.iter().map(|c| c.amount).sum::<i128>(), challenge.current_amount);
    assert_eq!(log[0].contributor, alice());
    assert_eq!(log[0].timestamp, 1000 + DAY);
    assert_eq!(log.iter().map(|c| c.week_number).collect::<Vec<_>>(), vec![1, 2, 3]);
    let stats = contract.get_participant_stats(1, alice()).unwrap();
    assert_eq!(stats.total_contributed, 800);
    assert_eq!(stats.contribution_count, 2);
    assert_eq!(stats.last_contribution, 1000 + 2 * WEEK + 5);
    assert_eq!(contract.get_challenge_stats(1), Ok((2, 1000, 333, 3)));
}

#[test]
fn week_number_starts_at_one_and_changes_on_the_boundary() {
    let mut contract = contract_with_challenge(1000, 4, 1000);
    assert_eq!(contract.contribute(1, alice(), 1, 1000), Ok(false));
    assert_eq!(contract.contribute(1, alice(), 1, 1000 + WEEK - 1), Ok(false));
    assert_eq!(contract.contribute(1, alice(), 1, 1000 + WEEK), Ok(false));
    assert_eq!(contract.contribute(1, alice(), 1, 1000 + 4 * WEEK), Ok(false));
    let weeks: Vec<u32> =
        contract.get_contributions(1).unwrap().iter().map(|c| c.week_number).collect();
    assert_eq!(weeks, vec![1, 1, 2, 5]);
}

#[test]
fn contribution_errors() {
    let mut contract = contract_with_challenge(1000, 4, 1000);
    assert_eq!(contract.contribute(1, alice(), 0, 2000), Err(SavingsError::InsufficientAmount));
    assert_eq!(contract.contribute(1, alice(), -5, 2000), Err(SavingsError::InsufficientAmount));
    assert_eq!(contract.contribute(7, alice(), 0, 2000), Err(SavingsError::InsufficientAmount));
    assert_eq!(contract.contribute(7, alice(), 5, 2000), Err(SavingsError::ChallengeNotFound));
    assert_eq!(contract.contribute(1, stranger(), 5, 2000), Err(SavingsError::NotParticipant));
    assert_eq!(contract.contribute(1, creator(), 5, 2000), Err(SavingsError::NotParticipant));
    let deadline = 1000 + 4 * WEEK;
    assert_eq!(contract.contribute(1, alice(), 5, deadline + 1), Err(SavingsError::ChallengeExpired));
    assert_eq!(contract.contribute(1, alice(), 5, deadline), Ok(false));
    assert_eq!(
        contract.contribute(1, alice(), i128::MAX, deadline),
        Err(SavingsError::ArithmeticError)
    );
    assert_eq!(contract.set_challenge_active(1, false, admin()), Ok(()));
    assert_eq!(contract.contribute(1, alice(), 5, 2000), Err(SavingsError::ChallengeInactive));
    assert_eq!(contract.get_challenge(1).unwrap().current_amount, 5);
    assert_eq!(contract.get_contributions(1).unwrap().len(), 1);
}

#[test]
fn goal_reached_allows_immediate_finalization() {
    let mut contract = contract_with_challenge(1000, 4, 1000);
    assert_eq!(contract.contribute(1, alice(), 1000, 2000), Ok(true));
    assert!(2000 < contract.get_challenge(1).unwrap().deadline);
    assert!(contract.get_challenge(1).unwrap().is_active);
    assert_eq!(contract.finalize_challenge(1, alice(), 2001), Ok(true));
    assert!(!contract.get_challenge(1).unwrap().is_active);
}

#[test]
fn finalize_succeeds_once() {
    let mut contract = contract_with_challenge(1000, 4, 1000);
    assert_eq!(contract.contribute(1, alice(), 1000, 2000), Ok(true));
    assert_eq!(contract.finalize_challenge(1, creator(), 2001), Ok(true));
    for (caller, at) in [(creator(), 2001), (alice(), 2002), (bob(), 1000 + 5 * WEEK)] {
        assert_eq!(contract.finalize_challenge(1, caller, at), Err(SavingsError::AlreadyFinalized));
        assert!(!contract.get_challenge(1).unwrap().is_active);
    }
    assert_eq!(contract.get_challenge(1).unwrap().current_amount, 1000);
}

#[test]
fn finalize_needs_goal_or_deadline() {
    let mut contract = contract_with_challenge(1000, 4, 1000);
    let deadline = 1000 + 4 * WEEK;
    assert_eq!(contract.contribute(1, alice(), 999, 2000), Ok(false));
    assert_eq!(contract.finalize_challenge(1, alice(), 2000), Err(SavingsError::InvalidParameters));
    assert_eq!(
        contract.finalize_challenge(1, alice(), deadline),
        Err(SavingsError::InvalidParameters)
    );
    assert!(contract.get_challenge(1).unwrap().is_active);
    assert_eq!(contract.finalize_challenge(1, stranger(), deadline + 1), Err(SavingsError::NotAuthorized));
    assert_eq!(contract.finalize_challenge(2, alice(), deadline + 1), Err(SavingsError::ChallengeNotFound));
    assert_eq!(contract.finalize_challenge(1, bob(), deadline + 1), Ok(false));
    assert!(!contract.get_challenge(1).unwrap().is_active);
}

#[test]
fn streak_resets_after_a_gap() {
    let mut contract = contract_with_challenge(1000, 8, 1000);
    // week 1, then week 4: the gap of three weeks exceeds the grace window
    assert_eq!(contract.contribute(1, alice(), 10, 1000 + DAY), Ok(false));
    assert_eq!(contract.get_participant_stats(1, alice()).unwrap().current_streak, 1);
    assert_eq!(contract.contribute(1, alice(), 10, 1000 + DAY + 3 * WEEK), Ok(false));
    let stats = contract.get_participant_stats(1, alice()).unwrap();
    assert_eq!(stats.current_streak, 1);
    assert_eq!(stats.contribution_count, 2);
    assert_eq!(contract.get_contributions(1).unwrap()[1].week_number, 4);
}

#[test]
fn streak_grows_within_the_grace_window() {
    let mut contract = contract_with_challenge(1000, 8, 1000);
    let start = 1000 + DAY;
    assert_eq!(contract.contribute(1, alice(), 10, start), Ok(false));
    assert_eq!(contract.contribute(1, alice(), 10, start + 8 * DAY), Ok(false));
    assert_eq!(contract.get_participant_stats(1, alice()).unwrap().current_streak, 2);
    assert_eq!(contract.contribute(1, alice(), 10, start + 8 * DAY), Ok(false));
    assert_eq!(contract.get_participant_stats(1, alice()).unwrap().current_streak, 3);
    assert_eq!(contract.contribute(1, alice(), 10, start + 16 * DAY + 1), Ok(false));
    assert_eq!(contract.get_participant_stats(1, alice()).unwrap().current_streak, 1);
    assert_eq!(contract.get_participant_stats(1, bob()).unwrap().current_streak, 0);
}

#[test]
fn first_contribution_at_time_zero_starts_a_streak_of_one() {
    let mut contract = contract_with_challenge(1000, 8, 0);
    assert_eq!(contract.contribute(1, alice(), 10, 0), Ok(false));
    assert_eq!(contract.get_participant_stats(1, alice()).unwrap().current_streak, 1);
    // the previous contribution was made at time zero, which counts as none
    assert_eq!(contract.contribute(1, alice(), 10, 5), Ok(false));
    assert_eq!(contract.get_participant_stats(1, alice()).unwrap().current_streak, 1);
    assert_eq!(contract.contribute(1, alice(), 10, 6), Ok(false));
    assert_eq!(contract.get_participant_stats(1, alice()).unwrap().current_streak, 2);
}

#[test]
fn progress_and_expected_amount() {
    let mut contract = contract_with_challenge(1000, 4, 1000);
    assert_eq!(contract.contribute(1, alice(), 250, 1000 + DAY), Ok(false));
    assert_eq!(contract.get_challenge_progress(1, 1000), Ok((250, 1000, 0, false)));
    assert_eq!(contract.get_challenge_progress(1, 1000 + 3 * WEEK + 1), Ok((250, 1000, 3, false)));
    assert_eq!(contract.get_challenge_progress(1, 1000 + 4 * WEEK), Ok((250, 1000, 4, false)));
    assert_eq!(contract.get_challenge_progress(1, 1000 + 4 * WEEK + 1), Ok((250, 1000, 4, true)));
    assert_eq!(contract.get_challenge_progress(1, 999), Ok((250, 1000, 0, false)));
    assert_eq!(contract.get_challenge_progress(2, 0), Err(SavingsError::ChallengeNotFound));
    assert_eq!(contract.get_expected_amount(1, 1000), Ok(0));
    assert_eq!(contract.get_expected_amount(1, 1000 + 3 * WEEK), Ok(300));
    assert_eq!(contract.get_expected_amount(1, 1000 + 10 * WEEK), Ok(1000));
    assert_eq!(contract.get_expected_amount(1, 1000 + 11 * WEEK), Ok(1000));
    assert_eq!(contract.get_expected_amount(3, 1000), Err(SavingsError::ChallengeNotFound));
}

#[test]
fn membership_queries() {
    let contract = contract_with_challenge(1000, 4, 1000);
    assert_eq!(contract.is_participant(1, alice()), Ok(true));
    assert_eq!(contract.is_participant(1, creator()), Ok(false));
    assert_eq!(contract.is_participant(2, alice()), Err(SavingsError::ChallengeNotFound));
    assert_eq!(contract.get_contributions(2).err(), Some(SavingsError::ChallengeNotFound));
    assert_eq!(contract.get_participant_stats(2, alice()), Err(SavingsError::ChallengeNotFound));
    assert_eq!(contract.get_challenge_stats(2), Err(SavingsError::ChallengeNotFound));
    assert_eq!(contract.get_challenge(2).err(), Some(SavingsError::ChallengeNotFound));
}

#[test]
fn only_the_administrator_switches_a_challenge() {
    let mut contract = contract_with_challenge(1000, 4, 1000);
    assert_eq!(contract.set_challenge_active(1, false, alice()), Err(SavingsError::NotAuthorized));
    assert!(contract.get_challenge(1).unwrap().is_active);
    assert_eq!(contract.set_challenge_active(5, false, admin()), Err(SavingsError::ChallengeNotFound));
    assert_eq!(contract.set_challenge_active(1, true, admin()), Ok(()));
    assert!(contract.get_challenge(1).unwrap().is_active);
    assert_eq!(contract.set_challenge_active(1, false, admin()), Ok(()));
    assert!(!contract.get_challenge(1).unwrap().is_active);
    assert_eq!(contract.set_challenge_active(1, false, admin()), Ok(()));
    assert!(!contract.get_challenge(1).unwrap().is_active);
}

#[test]
fn a_finalized_challenge_is_never_active_again() {
    let mut contract = contract_with_challenge(1000, 4, 1000);
    assert_eq!(contract.contribute(1, alice(), 1000, 2000), Ok(true));
    assert_eq!(contract.finalize_challenge(1, alice(), 2001), Ok(true));
    assert_eq!(contract.set_challenge_active(1, true, admin()), Err(SavingsError::AlreadyFinalized));
    assert_eq!(contract.contribute(1, alice(), 5, 2002), Err(SavingsError::ChallengeInactive));
    assert_eq!(new_challenge(&mut contract, 10, 1, vec![bob()], 1, 3000), Ok(2));
    assert_eq!(contract.contribute(2, bob(), 5, 3001), Ok(false));
    assert!(!contract.get_challenge(1).unwrap().is_active);
    assert!(contract.get_challenge(2).unwrap().is_active);
    assert_eq!(contract.get_challenge(1).unwrap().current_amount, 1000);
}

#[test]
fn savings_error_codes() {
    assert_eq!(SavingsError::NotAuthorized.code(), 1);
    assert_eq!(SavingsError::ChallengeExpired.code(), 7);
    assert_eq!(SavingsError::AlreadyFinalized.code(), 8);
    assert_eq!(SavingsError::ContributionTooEarly.code(), 10);
    assert_eq!(SavingsError::ArithmeticError.code(), 11);
}

fn env() -> Env {
    Env::new_with_config(EnvTestConfig { capture_snapshot_at_drop: false })
}

fn listed(list: &soroban_sdk::Vec<u32>) -> Vec<u32> {
    list.iter().collect()
}

#[test]
fn a_challenge_is_entered_once_in_the_list_of_a_user() {
    let env = env();
    let mut list: soroban_sdk::Vec<u32> = soroban_sdk::Vec::new(&env);
    assert!(SavingsChallengeContract::add_challenge_to_user(&mut list, 3));
    assert_eq!(listed(&list), vec![3]);
    assert!(SavingsChallengeContract::add_challenge_to_user(&mut list, 5));
    assert!(SavingsChallengeContract::add_challenge_to_user(&mut list, 3));
    assert!(SavingsChallengeContract::add_challenge_to_user(&mut list, 1));
    assert!(SavingsChallengeContract::add_challenge_to_user(&mut list, 5));
    assert_eq!(listed(&list), vec![3, 5, 1]);
}

#[test]
fn a_list_beyond_the_limit_is_left_as_it_is() {
    let env = env();
    let full: [u32; 4096] = core::array::from_fn(|i| i as u32);
    let mut list = soroban_sdk::Vec::from_array(&env, full);
    assert!(SavingsChallengeContract::add_challenge_to_user(&mut list, 17));
    assert_eq!(list.len(), 4096);
    assert!(SavingsChallengeContract::add_challenge_to_user(&mut list, 5000));
    assert_eq!(list.len(), 4097);
    assert_eq!(list.last(), Some(5000));
    assert!(!SavingsChallengeContract::add_challenge_to_user(&mut list, 5001));
    assert!(!SavingsChallengeContract::add_challenge_to_user(&mut list, 17));
    assert_eq!(list.len(), 4097);
    assert_eq!(list.last(), Some(5000));
}
