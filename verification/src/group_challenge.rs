//! Group challenges with milestones: participants join a challenge, deposit
//! toward its target, cross personal and group milestones on the way, and
//! complete it for a reward.

use vstd::prelude::*;
use crate::account::{AccountId, is_member};
use crate::arith::{
    fits_i128, scale_toward_zero, trunc_div, weeks_elapsed, BASIS_POINTS, DAY_SECONDS,
};
use crate::challenge::{
    SavingsError, advance_streak, next_streak, week_number, STREAK_GRACE_SECONDS,
};
use crate::digest::{challenge_digest, derive_challenge_id, same_id};
use crate::milestones::{
    ChallengeType, Deposit, Milestone, SocialFeatures, bonus_sum, copy_milestones, evaluate_milestones,
    evaluated, milestones_continued, newly_reached, reached_bonus,
};

verus! {

/// The bonus, in basis points, that each four weeks of a streak add to a reward.
pub const STREAK_BONUS: u32 = 50;

/// A savings challenge that participants join one by one.
pub struct Challenge {
    pub id: [u8; 32],
    pub creator: AccountId,
    pub target_amount: i128,
    pub duration_days: u32,
    pub start_time: u64,
    /// The reward of completing the challenge, in basis points of the target.
    pub reward_percentage: u32,
    pub participants: Vec<AccountId>,
    pub completed_users: Vec<AccountId>,
    pub vault_address: AccountId,
    pub reward_token: AccountId,
    pub active: bool,
    pub min_weekly_deposit: i128,
    /// The sum of the targets of the creator and of all who joined.
    pub group_target: i128,
    pub challenge_type: ChallengeType,
    pub social_features: SocialFeatures,
}

/// What one participant has saved in one challenge.
pub struct UserProgress {
    pub challenge_id: [u8; 32],
    pub user: AccountId,
    pub current_amount: i128,
    pub last_deposit_time: u64,
    pub streak_weeks: u32,
    pub deposits_history: Vec<Deposit>,
    pub completed: bool,
}

/// A participant of a challenge: the progress and the personal milestones.
pub struct Member {
    pub progress: UserProgress,
    pub milestones: Vec<Milestone>,
}

/// A challenge with its group milestones and its members, in the order in
/// which they joined.
pub struct ChallengeEntry {
    pub challenge: Challenge,
    pub group_milestones: Vec<Milestone>,
    pub members: Vec<Member>,
}

/// That a user has joined a challenge.
pub struct Membership {
    pub user: AccountId,
    pub challenge_id: [u8; 32],
}

/// What a deposit has set off.
pub struct DepositReceipt {
    /// The length of the streak, where the deposit has brought it to a
    /// multiple of four weeks.
    pub streak_achieved: Option<u32>,
    /// The places of the personal milestones that the deposit has reached, in
    /// ascending order of their targets.
    pub reached: Vec<usize>,
    /// The places of the group milestones that the deposit has reached, in
    /// ascending order of their targets.
    pub group_reached: Vec<usize>,
}

/// The state of the contract of group challenges.
pub struct SavingsChallenge {
    pub admin: AccountId,
    pub total_challenges: u32,
    pub entries: Vec<ChallengeEntry>,
    pub joined: Vec<Membership>,
}

/// `j` is the first member in `members` with the progress of `user`.
pub open spec fn first_member(members: Seq<Member>, user: AccountId, j: int) -> bool {
    &&& 0 <= j < members.len()
    &&& members[j].progress.user == user
    &&& forall|k: int| 0 <= k < j ==> members[k].progress.user != user
}

/// `user` has a member's record among `members`.
pub open spec fn has_member(members: Seq<Member>, user: AccountId) -> bool {
    exists|j: int| 0 <= j < members.len() && members[j].progress.user == user
}

/// The sum of the amounts of `deposits`.
pub open spec fn deposit_sum(deposits: Seq<Deposit>) -> int
    decreases deposits.len(),
{
    if deposits.len() == 0 {
        0
    } else {
        deposit_sum(deposits.drop_last()) + deposits.last().amount
    }
}

/// What the member has saved equals the sum of the member's logged deposits.
pub open spec fn member_logged(member: Member) -> bool {
    member.progress.current_amount == deposit_sum(member.progress.deposits_history@)
}

/// The sum of what the `members` have saved.
pub open spec fn saved_sum(members: Seq<Member>) -> int
    decreases members.len(),
{
    if members.len() == 0 {
        0
    } else {
        saved_sum(members.drop_last()) + members.last().progress.current_amount
    }
}

/// Whether the savings of the `members` can be summed one after the other
/// without leaving the range of the amounts.
pub open spec fn sums_fit(members: Seq<Member>) -> bool {
    forall|k: int| 0 <= k <= members.len() ==> fits_i128(#[trigger] saved_sum(members.take(k)))
}

/// The first member's record of a user is the only first one.
pub proof fn lemma_first_member_unique(members: Seq<Member>, user: AccountId, a: int, b: int)
    requires
        first_member(members, user, a),
        first_member(members, user, b),
    ensures
        a == b,
{
    if a < b {
        assert(members[a].progress.user != user);
    } else if b < a {
        assert(members[b].progress.user != user);
    }
}

/// The place of the first member with the progress of `user`.
pub fn find_member(members: &Vec<Member>, user: AccountId) -> (found: Option<usize>)
    ensures
        match found {
            Some(j) => first_member(members@, user, j as int) && j as int == (choose|c: int|
                first_member(members@, user, c)),
            None => !has_member(members@, user),
        },
{
    let mut j: usize = 0;
    while j < members.len()
        invariant
            j <= members.len(),
            forall|k: int| 0 <= k < j ==> members[k].progress.user != user,
        decreases members.len() - j,
    {
        if members[j].progress.user == user {
            proof {
                let c = choose|c: int| first_member(members@, user, c);
                lemma_first_member_unique(members@, user, j as int, c);
            }
            return Some(j);
        }
        j += 1;
    }
    None
}

/// The sum of what the `members` have saved; `None` where the sum leaves the
/// range of the amounts on the way.
pub fn group_savings(members: &Vec<Member>) -> (total: Option<i128>)
    ensures
        total == (if sums_fit(members@) {
            Some(saved_sum(members@) as i128)
        } else {
            None
        }),
        sums_fit(members@) ==> fits_i128(saved_sum(members@)),
{
    proof {
        if sums_fit(members@) {
            assert(members@.take(members@.len() as int) =~= members@);
            assert(fits_i128(saved_sum(members@.take(members@.len() as int))));
        }
    }
    let mut total: i128 = 0;
    let mut k: usize = 0;
    assert(members@.take(0).len() == 0);
    while k < members.len()
        invariant
            k <= members.len(),
            total == saved_sum(members@.take(k as int)),
            forall|i: int| 0 <= i <= k ==> fits_i128(#[trigger] saved_sum(members@.take(i))),
        decreases members.len() - k,
    {
        assert(members@.take(k as int + 1).drop_last() =~= members@.take(k as int));
        assert(members@.take(k as int + 1).last() == members@[k as int]);
        total = match total.checked_add(members[k].progress.current_amount) {
            Some(total) => total,
            None => {
                assert(!fits_i128(saved_sum(members@.take(k as int + 1))));
                return None;
            },
        };
        k += 1;
    }
    assert(members@.take(k as int) =~= members@);
    Some(total)
}

impl ChallengeEntry {
    /// The members are the participants, one record each and in the order of
    /// joining, and each record is kept under the challenge's identifier.
    pub open spec fn aligned(&self) -> bool {
        &&& self.members@.len() == self.challenge.participants@.len()
        &&& self.challenge.participants@.no_duplicates()
        &&& forall|j: int|
            0 <= j < self.members@.len() ==> {
                &&& (#[trigger] self.members@[j]).progress.user == self.challenge.participants@[j]
                &&& self.members@[j].progress.challenge_id == self.challenge.id
            }
    }

    /// `after` continues this entry: it is the entry of the same challenge;
    /// every milestone, of the group and of each member, is still there, and
    /// one that was reached is as it was; every member is still there, in its
    /// place; who has completed the challenge has completed it; and the
    /// deposits logged here are logged there, unchanged and before any others.
    pub open spec fn continued_by(&self, after: &ChallengeEntry) -> bool {
        &&& after.challenge.id == self.challenge.id
        &&& milestones_continued(self.group_milestones@, after.group_milestones@)
        &&& self.members@.len() <= after.members@.len()
        &&& forall|j: int|
            0 <= j < self.members@.len() ==> {
                &&& (#[trigger] after.members@[j]).progress.user == self.members@[j].progress.user
                &&& milestones_continued(self.members@[j].milestones@, after.members@[j].milestones@)
                &&& self.members@[j].progress.completed ==> after.members@[j].progress.completed
                &&& self.members@[j].progress.deposits_history@.len()
                    <= after.members@[j].progress.deposits_history@.len()
                &&& after.members@[j].progress.deposits_history@.take(
                    self.members@[j].progress.deposits_history@.len() as int,
                ) =~= self.members@[j].progress.deposits_history@
            }
    }

    /// What each member has saved equals the sum of the member's logged deposits.
    pub open spec fn logged(&self) -> bool {
        forall|j: int| 0 <= j < self.members@.len() ==> member_logged(#[trigger] self.members@[j])
    }

    /// Why a deposit of `amount` by `user` at `now` is refused, if it is.
    pub open spec fn deposit_refusal(&self, user: AccountId, amount: i128, now: u64) -> Option<
        SavingsError,
    > {
        if !self.challenge.active {
            Some(SavingsError::ChallengeInactive)
        } else if !self.challenge.participants@.contains(user) || !has_member(self.members@, user) {
            Some(SavingsError::NotParticipant)
        } else {
            let j = choose|j: int| first_member(self.members@, user, j);
            let progress = self.members@[j].progress;
            if week_number(self.challenge.start_time, now) > u32::MAX || next_streak(
                progress.last_deposit_time,
                progress.streak_weeks,
                now,
            ) > u32::MAX || !fits_i128(progress.current_amount + amount) || !sums_fit(self.members@)
                || !fits_i128(saved_sum(self.members@) + amount) {
                Some(SavingsError::ArithmeticError)
            } else {
                None
            }
        }
    }

    /// `after` is this entry with a deposit of `amount` by `user` at `now`
    /// applied: the deposit logged with its week, the user's savings and
    /// streak brought up to date, and the personal and the group milestones
    /// held against the user's savings and against those of the whole group.
    pub open spec fn deposited(&self, after: &ChallengeEntry, user: AccountId, amount: i128, now: u64)
        -> bool {
        let j = choose|j: int| first_member(self.members@, user, j);
        let progress = self.members@[j].progress;
        let saved = (progress.current_amount + amount) as i128;
        let total = (saved_sum(self.members@) + amount) as i128;
        &&& after.challenge == self.challenge
        &&& after.members@.len() == self.members@.len()
        &&& forall|k: int|
            0 <= k < self.members@.len() && k != j ==> after.members@[k] == self.members@[k]
        &&& after.members@[j].progress == (UserProgress {
            current_amount: saved,
            last_deposit_time: now,
            streak_weeks: next_streak(
                progress.last_deposit_time,
                progress.streak_weeks,
                now,
            ) as u32,
            deposits_history: after.members@[j].progress.deposits_history,
            ..progress
        })
        &&& after.members@[j].progress.deposits_history@ == progress.deposits_history@.push(
            Deposit {
                amount,
                timestamp: now,
                week_number: week_number(self.challenge.start_time, now) as u32,
            },
        )
        &&& after.members@[j].milestones@.len() == self.members@[j].milestones@.len()
        &&& forall|i: int|
            0 <= i < self.members@[j].milestones@.len() ==> after.members@[j].milestones@[i]
                == evaluated(self.members@[j].milestones@[i], saved, now)
        &&& after.group_milestones@.len() == self.group_milestones@.len()
        &&& forall|i: int|
            0 <= i < self.group_milestones@.len() ==> after.group_milestones@[i] == evaluated(
                self.group_milestones@[i],
                total,
                now,
            )
    }

    /// The streak that a deposit of `user` at `now` is to announce: its new
    /// length, where the deposit continues the streak and brings it to a
    /// multiple of four weeks.
    pub open spec fn announced_streak(&self, user: AccountId, now: u64) -> Option<u32> {
        let j = choose|j: int| first_member(self.members@, user, j);
        let progress = self.members@[j].progress;
        let streak = next_streak(progress.last_deposit_time, progress.streak_weeks, now);
        if progress.last_deposit_time > 0 && now - progress.last_deposit_time <= 691200 && streak
            % 4 == 0 {
            Some(streak as u32)
        } else {
            None
        }
    }

    /// Decides whether a deposit would be accepted, without making it.
    pub fn check_deposit(&self, user: AccountId, amount: i128, now: u64) -> (refusal: Option<
        SavingsError,
    >)
        ensures
            refusal == self.deposit_refusal(user, amount, now),
    {
        if !self.challenge.active {
            return Some(SavingsError::ChallengeInactive);
        }
        if !is_member(&self.challenge.participants, user) {
            return Some(SavingsError::NotParticipant);
        }
        let j = match find_member(&self.members, user) {
            Some(j) => j,
            None => {
                return Some(SavingsError::NotParticipant);
            },
        };
        let progress = &self.members[j].progress;
        if weeks_elapsed(self.challenge.start_time, now) >= 4294967295 {
            return Some(SavingsError::ArithmeticError);
        }
        if advance_streak(progress.last_deposit_time, progress.streak_weeks, now).is_none() {
            return Some(SavingsError::ArithmeticError);
        }
        if progress.current_amount.checked_add(amount).is_none() {
            return Some(SavingsError::ArithmeticError);
        }
        match group_savings(&self.members) {
            Some(total) => {
                if total.checked_add(amount).is_none() {
                    return Some(SavingsError::ArithmeticError);
                }
            },
            None => {
                return Some(SavingsError::ArithmeticError);
            },
        }
        None
    }

    /// Holds the personal milestones of the member at `j` against `amount` at
    /// `now` and returns the places of those that are reached by it.
    pub fn check_user_milestones(&mut self, j: usize, amount: i128, now: u64) -> (reached: Vec<usize>)
        requires
            j < old(self).members@.len(),
        ensures
            final(self).challenge == old(self).challenge,
            final(self).group_milestones == old(self).group_milestones,
            final(self).members@.len() == old(self).members@.len(),
            forall|k: int|
                0 <= k < old(self).members@.len() && k != j ==> final(self).members@[k] == old(self).members@[k],
            final(self).members@[j as int].progress == old(self).members@[j as int].progress,
            final(self).members@[j as int].milestones@.len() == old(self).members@[j as int].milestones@.len(),
            forall|i: int|
                0 <= i < old(self).members@[j as int].milestones@.len() ==> final(self).members@[j as int].milestones@[i] == evaluated(
                    old(self).members@[j as int].milestones@[i],
                    amount,
                    now,
                ),
            newly_reached(old(self).members@[j as int].milestones@, amount, reached@),
            old(self).continued_by(final(self)),
    {
        let member = &mut self.members[j];
        evaluate_milestones(&mut member.milestones, amount, now)
    }

    /// Holds the group milestones against `total`, the savings of the whole
    /// group, at `now` and returns the places of those that are reached by it.
    pub fn check_group_milestones(&mut self, total: i128, now: u64) -> (reached: Vec<usize>)
        ensures
            final(self).challenge == old(self).challenge,
            final(self).members == old(self).members,
            final(self).group_milestones@.len() == old(self).group_milestones@.len(),
            forall|i: int|
                0 <= i < old(self).group_milestones@.len() ==> final(self).group_milestones@[i]
                    == evaluated(old(self).group_milestones@[i], total, now),
            newly_reached(old(self).group_milestones@, total, reached@),
            old(self).continued_by(final(self)),
    {
        evaluate_milestones(&mut self.group_milestones, total, now)
    }

    /// Applies a deposit of `amount` by `user` at the time `now` and tells
    /// what it has set off. A refused deposit changes nothing.
    pub fn deposit(&mut self, user: AccountId, amount: i128, now: u64) -> (result: Result<
        DepositReceipt,
        SavingsError,
    >)
        ensures
            match old(self).deposit_refusal(user, amount, now) {
                Some(e) => result is Err && result->Err_0 == e && *final(self) == *old(self),
                None => {
                    let j = choose|j: int| first_member(old(self).members@, user, j);
                    &&& result is Ok
                    &&& old(self).deposited(final(self), user, amount, now)
                    &&& result->Ok_0.streak_achieved == old(self).announced_streak(user, now)
                    &&& newly_reached(
                        old(self).members@[j].milestones@,
                        (old(self).members@[j].progress.current_amount + amount) as i128,
                        result->Ok_0.reached@,
                    )
                    &&& newly_reached(
                        old(self).group_milestones@,
                        (saved_sum(old(self).members@) + amount) as i128,
                        result->Ok_0.group_reached@,
                    )
                },
            },
            old(self).continued_by(final(self)),
            old(self).logged() ==> final(self).logged(),
            old(self).aligned() ==> final(self).aligned(),
    {
        match self.check_deposit(user, amount, now) {
            Some(e) => {
                return Err(e);
            },
            None => {},
        }
        let j = match find_member(&self.members, user) {
            Some(j) => j,
            None => {
                return Err(SavingsError::NotParticipant);
            },
        };
        let total = match group_savings(&self.members) {
            Some(total) => total + amount,
            None => {
                return Err(SavingsError::ArithmeticError);
            },
        };
        let week: u64 = weeks_elapsed(self.challenge.start_time, now) + 1;
        let previous = self.members[j].progress.last_deposit_time;
        let streak = match advance_streak(previous, self.members[j].progress.streak_weeks, now) {
            Some(streak) => streak,
            None => {
                return Err(SavingsError::ArithmeticError);
            },
        };
        let continued = previous > 0 && (now <= previous || now - previous <= STREAK_GRACE_SECONDS);
        let streak_achieved = if continued && streak % 4 == 0 {
            Some(streak)
        } else {
            None
        };
        let saved = self.members[j].progress.current_amount + amount;
        let member = &mut self.members[j];
        member.progress.streak_weeks = streak;
        member.progress.deposits_history.push(
            Deposit { amount, timestamp: now, week_number: week as u32 },
        );
        member.progress.current_amount = saved;
        member.progress.last_deposit_time = now;
        proof {
            let history = old(self).members@[j as int].progress.deposits_history@;
            assert(self.members@[j as int].progress.deposits_history@.drop_last() =~= history);
        }
        let reached = self.check_user_milestones(j, saved, now);
        let group_reached = self.check_group_milestones(total, now);
        proof {
            if old(self).logged() {
                assert forall|k: int| 0 <= k < self.members@.len() implies member_logged(
                    #[trigger] self.members@[k],
                ) by {
                    assert(member_logged(old(self).members@[k]));
                }
            }
        }
        Ok(DepositReceipt { streak_achieved, reached, group_reached })
    }
}

/// The reward rate of a completion, in basis points: the rate of the
/// challenge, the bonuses of the personal milestones that were reached, and
/// the streak bonus for each four weeks of the streak.
pub open spec fn completion_rate(reward_percentage: u32, milestones: Seq<Milestone>, streak_weeks: u32)
    -> int {
    reward_percentage + bonus_sum(milestones) + (streak_weeks / 4) * 50
}

/// The reward of a completion: the target at the completion rate, rounded
/// toward zero.
pub open spec fn completion_reward(target_amount: i128, rate: int) -> int {
    trunc_div(target_amount * rate, 10000)
}

impl ChallengeEntry {
    /// Why `user` cannot join the challenge, if that is so.
    pub open spec fn join_refusal(&self, user: AccountId) -> Option<SavingsError> {
        if !self.challenge.active {
            Some(SavingsError::ChallengeInactive)
        } else if self.challenge.participants@.contains(user) {
            Some(SavingsError::InvalidParameters)
        } else if !fits_i128(self.challenge.group_target + self.challenge.target_amount) {
            Some(SavingsError::ArithmeticError)
        } else {
            None
        }
    }

    /// `after` is this entry with `user` joined at `now`: entered among the
    /// participants, the group target grown by the target of the challenge,
    /// and a member's record opened with nothing saved and a copy of the group
    /// milestones as personal milestones.
    pub open spec fn joined(&self, after: &ChallengeEntry, user: AccountId, now: u64) -> bool {
        let member = after.members@.last();
        &&& after.challenge == (Challenge {
            participants: after.challenge.participants,
            group_target: (self.challenge.group_target + self.challenge.target_amount) as i128,
            ..self.challenge
        })
        &&& after.challenge.participants@ == self.challenge.participants@.push(user)
        &&& after.group_milestones == self.group_milestones
        &&& after.members@.len() == self.members@.len() + 1
        &&& after.members@.drop_last() == self.members@
        &&& member.progress == (UserProgress {
            challenge_id: self.challenge.id,
            user,
            current_amount: 0,
            last_deposit_time: now,
            streak_weeks: 0,
            deposits_history: member.progress.deposits_history,
            completed: false,
        })
        &&& member.progress.deposits_history@.len() == 0
        &&& member.milestones@ == self.group_milestones@
    }

    /// Lets `user` join the challenge at the time `now`. The challenge must be
    /// active and the user not a participant yet.
    pub fn join(&mut self, user: AccountId, now: u64) -> (result: Result<(), SavingsError>)
        ensures
            match old(self).join_refusal(user) {
                Some(e) => result == Err::<(), SavingsError>(e) && *final(self) == *old(self),
                None => result is Ok && old(self).joined(final(self), user, now),
            },
            old(self).continued_by(final(self)),
            old(self).logged() ==> final(self).logged(),
            old(self).aligned() ==> final(self).aligned(),
    {
        if !self.challenge.active {
            return Err(SavingsError::ChallengeInactive);
        }
        if is_member(&self.challenge.participants, user) {
            return Err(SavingsError::InvalidParameters);
        }
        let group_target = match self.challenge.group_target.checked_add(
            self.challenge.target_amount,
        ) {
            Some(group_target) => group_target,
            None => {
                return Err(SavingsError::ArithmeticError);
            },
        };
        let member = Member {
            progress: UserProgress {
                challenge_id: self.challenge.id,
                user,
                current_amount: 0,
                last_deposit_time: now,
                streak_weeks: 0,
                deposits_history: Vec::new(),
                completed: false,
            },
            milestones: copy_milestones(&self.group_milestones),
        };
        self.challenge.participants.push(user);
        self.challenge.group_target = group_target;
        self.members.push(member);
        assert(self.members@.drop_last() =~= old(self).members@);
        proof {
            if old(self).aligned() {
                let before = old(self).challenge.participants@;
                let after = self.challenge.participants@;
                assert forall|a: int, b: int|
                    0 <= a < after.len() && 0 <= b < after.len() && a != b implies after[a]
                    != after[b] by {
                    if a == before.len() {
                        assert(before[b] != user);
                    } else if b == before.len() {
                        assert(before[a] != user);
                    }
                }
                assert forall|j: int| 0 <= j < self.members@.len() implies {
                    &&& (#[trigger] self.members@[j]).progress.user
                        == self.challenge.participants@[j]
                    &&& self.members@[j].progress.challenge_id == self.challenge.id
                } by {
                    if j < old(self).members@.len() {
                        assert(old(self).members@[j].progress.user == before[j]);
                    }
                }
            }
            if old(self).logged() {
                assert forall|k: int| 0 <= k < self.members@.len() implies member_logged(
                    #[trigger] self.members@[k],
                ) by {
                    if k < old(self).members@.len() {
                        assert(member_logged(old(self).members@[k]));
                    }
                }
            }
        }
        Ok(())
    }

    /// Why `user` cannot complete the challenge at `now`, if that is so.
    pub open spec fn complete_refusal(&self, user: AccountId, now: u64) -> Option<SavingsError> {
        if !self.challenge.active {
            Some(SavingsError::ChallengeInactive)
        } else if !has_member(self.members@, user) {
            Some(SavingsError::NotParticipant)
        } else {
            let member = self.members@[choose|j: int| first_member(self.members@, user, j)];
            let rate = completion_rate(
                self.challenge.reward_percentage,
                member.milestones@,
                member.progress.streak_weeks,
            );
            if member.progress.completed {
                Some(SavingsError::AlreadyFinalized)
            } else if member.progress.current_amount < self.challenge.target_amount {
                Some(SavingsError::GoalNotReached)
            } else if now < self.challenge.start_time + self.challenge.duration_days * 86400 {
                Some(SavingsError::ContributionTooEarly)
            } else if rate > u32::MAX || !fits_i128(self.challenge.target_amount * rate) {
                Some(SavingsError::ArithmeticError)
            } else {
                None
            }
        }
    }

    /// `after` is this entry with the challenge completed by `user`: the user
    /// entered among those who completed it, and the progress marked so.
    pub open spec fn completed(&self, after: &ChallengeEntry, user: AccountId) -> bool {
        let j = choose|j: int| first_member(self.members@, user, j);
        &&& after.challenge == (Challenge {
            completed_users: after.challenge.completed_users,
            ..self.challenge
        })
        &&& after.challenge.completed_users@ == self.challenge.completed_users@.push(user)
        &&& after.group_milestones == self.group_milestones
        &&& after.members@.len() == self.members@.len()
        &&& forall|k: int|
            0 <= k < self.members@.len() && k != j ==> after.members@[k] == self.members@[k]
        &&& after.members@[j] == (Member {
            progress: UserProgress { completed: true, ..self.members@[j].progress },
            ..self.members@[j]
        })
    }

    /// The reward of `user` for completing the challenge.
    pub open spec fn reward_of(&self, user: AccountId) -> int {
        let member = self.members@[choose|j: int| first_member(self.members@, user, j)];
        completion_reward(
            self.challenge.target_amount,
            completion_rate(
                self.challenge.reward_percentage,
                member.milestones@,
                member.progress.streak_weeks,
            ),
        )
    }

    /// Decides whether `user` can complete the challenge at `now`, and
    /// computes the reward of the completion.
    pub fn check_complete(&self, user: AccountId, now: u64) -> (result: Result<i128, SavingsError>)
        ensures
            match self.complete_refusal(user, now) {
                Some(e) => result == Err::<i128, SavingsError>(e),
                None => result == Ok::<i128, SavingsError>(self.reward_of(user) as i128),
            },
    {
        if !self.challenge.active {
            return Err(SavingsError::ChallengeInactive);
        }
        let j = match find_member(&self.members, user) {
            Some(j) => j,
            None => {
                return Err(SavingsError::NotParticipant);
            },
        };
        let member = &self.members[j];
        if member.progress.completed {
            return Err(SavingsError::AlreadyFinalized);
        }
        if member.progress.current_amount < self.challenge.target_amount {
            return Err(SavingsError::GoalNotReached);
        }
        let span: u64 = (self.challenge.duration_days as u64) * DAY_SECONDS;
        match self.challenge.start_time.checked_add(span) {
            Some(end_time) => {
                if now < end_time {
                    return Err(SavingsError::ContributionTooEarly);
                }
            },
            None => {
                return Err(SavingsError::ContributionTooEarly);
            },
        }
        let bonus = match reached_bonus(&member.milestones) {
            Some(bonus) => bonus,
            None => {
                proof {
                    crate::milestones::lemma_bonus_nonnegative(member.milestones@);
                }
                return Err(SavingsError::ArithmeticError);
            },
        };
        proof {
            crate::milestones::lemma_bonus_nonnegative(member.milestones@);
        }
        let streak_bonus: u64 = ((member.progress.streak_weeks / 4) as u64) * (STREAK_BONUS as u64);
        let rate: u64 = (self.challenge.reward_percentage as u64) + (bonus as u64) + streak_bonus;
        if rate > 4294967295 {
            return Err(SavingsError::ArithmeticError);
        }
        match scale_toward_zero(self.challenge.target_amount, rate as i128, BASIS_POINTS) {
            Some(reward) => Ok(reward),
            None => Err(SavingsError::ArithmeticError),
        }
    }

    /// Completes the challenge for `user` at the time `now` and returns the
    /// reward that is due.
    ///
    /// The challenge must be active and its duration over, and the user must
    /// have saved the target and not have completed the challenge before. The
    /// reward is the target at the rate of the challenge, raised by the
    /// bonuses of the personal milestones reached and by the streak bonus.
    pub fn complete(&mut self, user: AccountId, now: u64) -> (result: Result<i128, SavingsError>)
        ensures
            match old(self).complete_refusal(user, now) {
                Some(e) => result == Err::<i128, SavingsError>(e) && *final(self) == *old(self),
                None => {
                    &&& result == Ok::<i128, SavingsError>(old(self).reward_of(user) as i128)
                    &&& old(self).completed(final(self), user)
                },
            },
            old(self).continued_by(final(self)),
            old(self).logged() ==> final(self).logged(),
            old(self).aligned() ==> final(self).aligned(),
    {
        let reward = match self.check_complete(user, now) {
            Ok(reward) => reward,
            Err(e) => {
                return Err(e);
            },
        };
        let j = match find_member(&self.members, user) {
            Some(j) => j,
            None => {
                return Err(SavingsError::NotParticipant);
            },
        };
        self.challenge.completed_users.push(user);
        let member = &mut self.members[j];
        member.progress.completed = true;
        proof {
            if old(self).logged() {
                assert forall|k: int| 0 <= k < self.members@.len() implies member_logged(
                    #[trigger] self.members@[k],
                ) by {
                    assert(member_logged(old(self).members@[k]));
                }
            }
        }
        Ok(reward)
    }
}

/// `i` is the first entry in `entries` whose challenge has the identifier `id`.
pub open spec fn first_entry_of(entries: Seq<ChallengeEntry>, id: Seq<u8>, i: int) -> bool {
    &&& 0 <= i < entries.len()
    &&& entries[i].challenge.id@ == id
    &&& forall|k: int| 0 <= k < i ==> entries[k].challenge.id@ != id
}

/// A challenge with the identifier `id` is among `entries`.
pub open spec fn has_entry_of(entries: Seq<ChallengeEntry>, id: Seq<u8>) -> bool {
    exists|i: int| 0 <= i < entries.len() && entries[i].challenge.id@ == id
}

/// The first entry of a challenge is the only first one.
pub proof fn lemma_first_entry_unique(entries: Seq<ChallengeEntry>, id: Seq<u8>, a: int, b: int)
    requires
        first_entry_of(entries, id, a),
        first_entry_of(entries, id, b),
    ensures
        a == b,
{
    if a < b {
        assert(entries[a].challenge.id@ != id);
    } else if b < a {
        assert(entries[b].challenge.id@ != id);
    }
}

/// The place of the first entry whose challenge has the identifier `id`.
pub fn find_entry(entries: &Vec<ChallengeEntry>, id: &[u8; 32]) -> (found: Option<usize>)
    ensures
        match found {
            Some(i) => first_entry_of(entries@, id@, i as int) && i as int == (choose|c: int|
                first_entry_of(entries@, id@, c)),
            None => !has_entry_of(entries@, id@),
        },
{
    let mut i: usize = 0;
    while i < entries.len()
        invariant
            i <= entries.len(),
            forall|k: int| 0 <= k < i ==> entries[k].challenge.id@ != id@,
        decreases entries.len() - i,
    {
        if same_id(&entries[i].challenge.id, id) {
            proof {
                assert(first_entry_of(entries@, id@, i as int));
                let c = choose|c: int| first_entry_of(entries@, id@, c);
                lemma_first_entry_unique(entries@, id@, i as int, c);
            }
            return Some(i);
        }
        i += 1;
    }
    None
}

/// The identifiers of the challenges that `user` has joined according to
/// `log`, in the order of joining.
pub open spec fn joined_by(log: Seq<Membership>, user: AccountId) -> Seq<[u8; 32]>
    decreases log.len(),
{
    if log.len() == 0 {
        Seq::empty()
    } else {
        let earlier = joined_by(log.drop_last(), user);
        if log.last().user == user {
            earlier.push(log.last().challenge_id)
        } else {
            earlier
        }
    }
}

/// `milestones` are the group milestones of a new challenge with the target
/// `target_amount`: a quarter, a half and three quarters of the target, none
/// of them reached, with bonuses of 50, 100 and 150 basis points.
pub open spec fn default_milestones(milestones: Seq<Milestone>, target_amount: i128) -> bool {
    &&& milestones.len() == 3
    &&& milestones[0].description@ == "25% Complete"@
    &&& milestones[0].target_amount == target_amount / 4
    &&& milestones[0].reward_bonus == 50
    &&& milestones[1].description@ == "50% Complete"@
    &&& milestones[1].target_amount == target_amount / 2
    &&& milestones[1].reward_bonus == 100
    &&& milestones[2].description@ == "75% Complete"@
    &&& milestones[2].target_amount == (target_amount * 3) / 4
    &&& milestones[2].reward_bonus == 150
    &&& forall|i: int| 0 <= i < 3 ==> !milestones[i].reached && milestones[i].reached_at == 0
}

impl SavingsChallenge {
    /// `after` continues this contract: every challenge is still there, in
    /// its place, with its milestones, its members and their deposits.
    pub open spec fn continued_by(&self, after: &SavingsChallenge) -> bool {
        &&& self.entries@.len() <= after.entries@.len()
        &&& forall|i: int|
            0 <= i < self.entries@.len() ==> self.entries@[i].continued_by(
                &#[trigger] after.entries@[i],
            )
    }

    /// In every challenge the members are the participants, one record each.
    pub open spec fn aligned(&self) -> bool {
        forall|i: int| 0 <= i < self.entries@.len() ==> (#[trigger] self.entries@[i]).aligned()
    }

    /// In every challenge, what each member has saved equals the sum of the
    /// member's logged deposits.
    pub open spec fn logged(&self) -> bool {
        forall|i: int| 0 <= i < self.entries@.len() ==> (#[trigger] self.entries@[i]).logged()
    }

    /// A contract without challenges, administered by `admin`.
    pub fn initialize(admin: AccountId) -> (contract: Self)
        ensures
            contract.admin == admin,
            contract.total_challenges == 0,
            contract.entries@.len() == 0,
            contract.joined@.len() == 0,
            contract.logged(),
            contract.aligned(),
    {
        SavingsChallenge { admin, total_challenges: 0, entries: Vec::new(), joined: Vec::new() }
    }

    /// Why the opening of a challenge under the identifier `id` is refused, if it is.
    pub open spec fn open_refusal(
        &self,
        id: Seq<u8>,
        target_amount: i128,
        duration_days: u32,
        reward_percentage: u32,
        min_weekly_deposit: i128,
    ) -> Option<SavingsError> {
        if target_amount <= 0 || duration_days == 0 || reward_percentage > 10000
            || min_weekly_deposit < 0 {
            Some(SavingsError::InvalidParameters)
        } else if self.total_challenges == u32::MAX || !fits_i128(target_amount * 3) {
            Some(SavingsError::ArithmeticError)
        } else if has_entry_of(self.entries@, id) {
            Some(SavingsError::InvalidParameters)
        } else {
            None
        }
    }

    /// `after` is this contract with a challenge opened under `id`: one
    /// challenge more is counted, and after all others stands an active
    /// challenge of `creator` that starts at `now`, with nobody taking part and
    /// the group milestones of a new challenge.
    pub open spec fn opened(
        &self,
        after: &SavingsChallenge,
        id: [u8; 32],
        creator: AccountId,
        target_amount: i128,
        duration_days: u32,
        reward_percentage: u32,
        vault_address: AccountId,
        reward_token: AccountId,
        min_weekly_deposit: i128,
        challenge_type: ChallengeType,
        social_features: SocialFeatures,
        now: u64,
    ) -> bool {
        let entry = after.entries@.last();
        &&& *after == (SavingsChallenge {
            total_challenges: (self.total_challenges + 1) as u32,
            entries: after.entries,
            ..*self
        })
        &&& after.entries@.len() == self.entries@.len() + 1
        &&& after.entries@.drop_last() == self.entries@
        &&& entry.challenge == (Challenge {
            id,
            creator,
            target_amount,
            duration_days,
            start_time: now,
            reward_percentage,
            participants: entry.challenge.participants,
            completed_users: entry.challenge.completed_users,
            vault_address,
            reward_token,
            active: true,
            min_weekly_deposit,
            group_target: target_amount,
            challenge_type,
            social_features,
        })
        &&& entry.challenge.participants@.len() == 0
        &&& entry.challenge.completed_users@.len() == 0
        &&& entry.members@.len() == 0
        &&& default_milestones(entry.group_milestones@, target_amount)
    }

    /// Opens an active challenge without participants under the identifier
    /// `id`, and returns the identifier.
    ///
    /// The target must be positive, the duration at least a day, the reward at
    /// most 10000 basis points and the weekly minimum not negative. The
    /// challenge starts at `now` with the group milestones of a new challenge:
    /// a quarter, a half and three quarters of the target. An identifier is
    /// given once: under the identifier of a challenge that exists, no
    /// challenge is opened.
    pub fn open_challenge(
        &mut self,
        id: [u8; 32],
        creator: AccountId,
        target_amount: i128,
        duration_days: u32,
        reward_percentage: u32,
        vault_address: AccountId,
        reward_token: AccountId,
        min_weekly_deposit: i128,
        challenge_type: ChallengeType,
        social_features: SocialFeatures,
        now: u64,
    ) -> (result: Result<[u8; 32], SavingsError>)
        ensures
            match old(self).open_refusal(
                id@,
                target_amount,
                duration_days,
                reward_percentage,
                min_weekly_deposit,
            ) {
                Some(e) => result is Err && result->Err_0 == e && *final(self) == *old(self),
                None => {
                    &&& result is Ok
                    &&& result->Ok_0 == id
                    &&& old(self).opened(
                        final(self),
                        id,
                        creator,
                        target_amount,
                        duration_days,
                        reward_percentage,
                        vault_address,
                        reward_token,
                        min_weekly_deposit,
                        challenge_type,
                        social_features,
                        now,
                    )
                },
            },
            old(self).continued_by(final(self)),
            old(self).logged() ==> final(self).logged(),
            old(self).aligned() ==> final(self).aligned(),
    {
        if target_amount <= 0 || duration_days == 0 || reward_percentage > 10000
            || min_weekly_deposit < 0 {
            return Err(SavingsError::InvalidParameters);
        }
        if self.total_challenges == u32::MAX {
            return Err(SavingsError::ArithmeticError);
        }
        let tripled = match target_amount.checked_mul(3) {
            Some(tripled) => tripled,
            None => {
                return Err(SavingsError::ArithmeticError);
            },
        };
        if find_entry(&self.entries, &id).is_some() {
            return Err(SavingsError::InvalidParameters);
        }
        let mut milestones: Vec<Milestone> = Vec::new();
        milestones.push(
            Milestone {
                description: "25% Complete".to_owned(),
                target_amount: target_amount / 4,
                reached: false,
                reached_at: 0,
                reward_bonus: 50,
            },
        );
        milestones.push(
            Milestone {
                description: "50% Complete".to_owned(),
                target_amount: target_amount / 2,
                reached: false,
                reached_at: 0,
                reward_bonus: 100,
            },
        );
        milestones.push(
            Milestone {
                description: "75% Complete".to_owned(),
                target_amount: tripled / 4,
                reached: false,
                reached_at: 0,
                reward_bonus: 150,
            },
        );
        let entry = ChallengeEntry {
            challenge: Challenge {
                id,
                creator,
                target_amount,
                duration_days,
                start_time: now,
                reward_percentage,
                participants: Vec::new(),
                completed_users: Vec::new(),
                vault_address,
                reward_token,
                active: true,
                min_weekly_deposit,
                group_target: target_amount,
                challenge_type,
                social_features,
            },
            group_milestones: milestones,
            members: Vec::new(),
        };
        self.entries.push(entry);
        self.total_challenges = self.total_challenges + 1;
        assert(self.entries@.drop_last() =~= old(self).entries@);
        Ok(id)
    }

    /// Why the creation of a challenge is refused, if it is: why its opening
    /// under the digest of the number of challenges created before is.
    pub open spec fn create_refusal(
        &self,
        target_amount: i128,
        duration_days: u32,
        reward_percentage: u32,
        min_weekly_deposit: i128,
    ) -> Option<SavingsError> {
        self.open_refusal(
            challenge_digest(self.total_challenges),
            target_amount,
            duration_days,
            reward_percentage,
            min_weekly_deposit,
        )
    }

    /// Creates an active challenge without participants and returns its
    /// identifier, the SHA-256 digest of the number of challenges created
    /// before it: the challenge is opened under that digest.
    pub fn create_challenge(
        &mut self,
        env: &soroban_sdk::Env,
        creator: AccountId,
        target_amount: i128,
        duration_days: u32,
        reward_percentage: u32,
        vault_address: AccountId,
        reward_token: AccountId,
        min_weekly_deposit: i128,
        challenge_type: ChallengeType,
        social_features: SocialFeatures,
        now: u64,
    ) -> (result: Result<[u8; 32], SavingsError>)
        ensures
            match old(self).create_refusal(
                target_amount,
                duration_days,
                reward_percentage,
                min_weekly_deposit,
            ) {
                Some(e) => result is Err && result->Err_0 == e && *final(self) == *old(self),
                None => {
                    &&& result is Ok
                    &&& result->Ok_0@ == challenge_digest(old(self).total_challenges)
                    &&& old(self).opened(
                        final(self),
                        result->Ok_0,
                        creator,
                        target_amount,
                        duration_days,
                        reward_percentage,
                        vault_address,
                        reward_token,
                        min_weekly_deposit,
                        challenge_type,
                        social_features,
                        now,
                    )
                },
            },
            old(self).continued_by(final(self)),
            old(self).logged() ==> final(self).logged(),
            old(self).aligned() ==> final(self).aligned(),
    {
        let id = derive_challenge_id(env, self.total_challenges);
        self.open_challenge(
            id,
            creator,
            target_amount,
            duration_days,
            reward_percentage,
            vault_address,
            reward_token,
            min_weekly_deposit,
            challenge_type,
            social_features,
            now,
        )
    }

    /// Why `user` cannot join the challenge `challenge_id`, if that is so.
    pub open spec fn join_refusal(&self, user: AccountId, challenge_id: Seq<u8>) -> Option<
        SavingsError,
    > {
        if !has_entry_of(self.entries@, challenge_id) {
            Some(SavingsError::ChallengeNotFound)
        } else {
            self.entries@[choose|i: int|
                first_entry_of(self.entries@, challenge_id, i)].join_refusal(user)
        }
    }

    /// Lets `user` join the challenge `challenge_id` at the time `now`. The
    /// challenge must be active and the user not a participant yet. The user
    /// starts with nothing saved and with a copy of the group milestones.
    pub fn join_challenge(&mut self, user: AccountId, challenge_id: &[u8; 32], now: u64) -> (result:
        Result<(), SavingsError>)
        ensures
            match old(self).join_refusal(user, challenge_id@) {
                Some(e) => result == Err::<(), SavingsError>(e) && *final(self) == *old(self),
                None => {
                    let i = choose|i: int| first_entry_of(old(self).entries@, challenge_id@, i);
                    &&& result is Ok
                    &&& *final(self) == (SavingsChallenge {
                        entries: final(self).entries,
                        joined: final(self).joined,
                        ..*old(self)
                    })
                    &&& final(self).entries@.len() == old(self).entries@.len()
                    &&& forall|k: int|
                        0 <= k < old(self).entries@.len() && k != i ==> final(self).entries@[k]
                            == old(self).entries@[k]
                    &&& old(self).entries@[i].joined(&final(self).entries@[i], user, now)
                    &&& final(self).joined@ == old(self).joined@.push(
                        Membership { user, challenge_id: *challenge_id },
                    )
                },
            },
            old(self).continued_by(final(self)),
            old(self).logged() ==> final(self).logged(),
            old(self).aligned() ==> final(self).aligned(),
    {
        let i = match find_entry(&self.entries, challenge_id) {
            Some(i) => i,
            None => {
                return Err(SavingsError::ChallengeNotFound);
            },
        };
        if !self.entries[i].challenge.active {
            return Err(SavingsError::ChallengeInactive);
        }
        if is_member(&self.entries[i].challenge.participants, user) {
            return Err(SavingsError::InvalidParameters);
        }
        if self.entries[i].challenge.group_target.checked_add(
            self.entries[i].challenge.target_amount,
        ).is_none() {
            return Err(SavingsError::ArithmeticError);
        }
        let entry = &mut self.entries[i];
        let _ = entry.join(user, now);
        self.joined.push(Membership { user, challenge_id: *challenge_id });
        Ok(())
    }

    /// Why a deposit into the challenge `challenge_id` is refused, if it is.
    pub open spec fn deposit_refusal(
        &self,
        user: AccountId,
        challenge_id: Seq<u8>,
        amount: i128,
        now: u64,
    ) -> Option<SavingsError> {
        if amount <= 0 {
            Some(SavingsError::InsufficientAmount)
        } else if !has_entry_of(self.entries@, challenge_id) {
            Some(SavingsError::ChallengeNotFound)
        } else {
            self.entries@[choose|i: int|
                first_entry_of(self.entries@, challenge_id, i)].deposit_refusal(user, amount, now)
        }
    }

    /// Deposits `amount` for `user` into the challenge `challenge_id` at the
    /// time `now` and tells what the deposit has set off.
    ///
    /// The amount must be positive, the challenge active and the user one of
    /// its participants. The deposit is logged with its week and added to the
    /// user's savings; the streak grows by one where the deposit before was
    /// made within the last eight days, and starts at one otherwise. Then the
    /// user's milestones are held against the user's savings, and the group
    /// milestones against the savings of all participants.
    pub fn deposit(&mut self, user: AccountId, challenge_id: &[u8; 32], amount: i128, now: u64) -> (result:
        Result<DepositReceipt, SavingsError>)
        ensures
            match old(self).deposit_refusal(user, challenge_id@, amount, now) {
                Some(e) => result is Err && result->Err_0 == e && *final(self) == *old(self),
                None => {
                    let i = choose|i: int| first_entry_of(old(self).entries@, challenge_id@, i);
                    let entry = old(self).entries@[i];
                    let j = choose|j: int| first_member(entry.members@, user, j);
                    &&& result is Ok
                    &&& *final(self) == (SavingsChallenge {
                        entries: final(self).entries,
                        ..*old(self)
                    })
                    &&& final(self).entries@.len() == old(self).entries@.len()
                    &&& forall|k: int|
                        0 <= k < old(self).entries@.len() && k != i ==> final(self).entries@[k]
                            == old(self).entries@[k]
                    &&& entry.deposited(&final(self).entries@[i], user, amount, now)
                    &&& result->Ok_0.streak_achieved == entry.announced_streak(user, now)
                    &&& newly_reached(
                        entry.members@[j].milestones@,
                        (entry.members@[j].progress.current_amount + amount) as i128,
                        result->Ok_0.reached@,
                    )
                    &&& newly_reached(
                        entry.group_milestones@,
                        (saved_sum(entry.members@) + amount) as i128,
                        result->Ok_0.group_reached@,
                    )
                },
            },
            old(self).continued_by(final(self)),
            old(self).logged() ==> final(self).logged(),
            old(self).aligned() ==> final(self).aligned(),
    {
        if amount <= 0 {
            return Err(SavingsError::InsufficientAmount);
        }
        let i = match find_entry(&self.entries, challenge_id) {
            Some(i) => i,
            None => {
                return Err(SavingsError::ChallengeNotFound);
            },
        };
        match self.entries[i].check_deposit(user, amount, now) {
            Some(e) => {
                return Err(e);
            },
            None => {},
        }
        let entry = &mut self.entries[i];
        entry.deposit(user, amount, now)
    }

    /// Why `user` cannot complete the challenge `challenge_id` at `now`, if that is so.
    pub open spec fn complete_refusal(&self, user: AccountId, challenge_id: Seq<u8>, now: u64)
        -> Option<SavingsError> {
        if !has_entry_of(self.entries@, challenge_id) {
            Some(SavingsError::ChallengeNotFound)
        } else {
            self.entries@[choose|i: int|
                first_entry_of(self.entries@, challenge_id, i)].complete_refusal(user, now)
        }
    }

    /// Completes the challenge `challenge_id` for `user` at the time `now` and
    /// returns the reward that is due to the user.
    ///
    /// The challenge must be active and its duration over, and the user must
    /// have saved the target and not have completed the challenge before.
    pub fn complete_challenge(&mut self, user: AccountId, challenge_id: &[u8; 32], now: u64) -> (result:
        Result<i128, SavingsError>)
        ensures
            match old(self).complete_refusal(user, challenge_id@, now) {
                Some(e) => result == Err::<i128, SavingsError>(e) && *final(self) == *old(self),
                None => {
                    let i = choose|i: int| first_entry_of(old(self).entries@, challenge_id@, i);
                    &&& result == Ok::<i128, SavingsError>(
                        old(self).entries@[i].reward_of(user) as i128,
                    )
                    &&& *final(self) == (SavingsChallenge {
                        entries: final(self).entries,
                        ..*old(self)
                    })
                    &&& final(self).entries@.len() == old(self).entries@.len()
                    &&& forall|k: int|
                        0 <= k < old(self).entries@.len() && k != i ==> final(self).entries@[k]
                            == old(self).entries@[k]
                    &&& old(self).entries@[i].completed(&final(self).entries@[i], user)
                },
            },
            old(self).continued_by(final(self)),
            old(self).logged() ==> final(self).logged(),
            old(self).aligned() ==> final(self).aligned(),
    {
        let i = match find_entry(&self.entries, challenge_id) {
            Some(i) => i,
            None => {
                return Err(SavingsError::ChallengeNotFound);
            },
        };
        match self.entries[i].check_complete(user, now) {
            Ok(_) => {},
            Err(e) => {
                return Err(e);
            },
        }
        let entry = &mut self.entries[i];
        entry.complete(user, now)
    }

    /// The progress of `user` in the challenge `challenge_id`.
    pub fn get_user_progress(&self, challenge_id: &[u8; 32], user: AccountId) -> (result: Result<
        &UserProgress,
        SavingsError,
    >)
        ensures
            match result {
                Ok(progress) => exists|i: int, j: int|
                    first_entry_of(self.entries@, challenge_id@, i) && first_member(
                        self.entries@[i].members@,
                        user,
                        j,
                    ) && *progress == self.entries@[i].members@[j].progress,
                Err(e) => if has_entry_of(self.entries@, challenge_id@) {
                    e == SavingsError::NotParticipant && !has_member(
                        self.entries@[choose|i: int|
                            first_entry_of(self.entries@, challenge_id@, i)].members@,
                        user,
                    )
                } else {
                    e == SavingsError::ChallengeNotFound
                },
            },
    {
        let i = match find_entry(&self.entries, challenge_id) {
            Some(i) => i,
            None => {
                return Err(SavingsError::ChallengeNotFound);
            },
        };
        match find_member(&self.entries[i].members, user) {
            Some(j) => Ok(&self.entries[i].members[j].progress),
            None => Err(SavingsError::NotParticipant),
        }
    }

    /// The personal milestones of `user` in the challenge `challenge_id`.
    pub fn get_user_milestones(&self, challenge_id: &[u8; 32], user: AccountId) -> (result: Result<
        &Vec<Milestone>,
        SavingsError,
    >)
        ensures
            match result {
                Ok(milestones) => exists|i: int, j: int|
                    first_entry_of(self.entries@, challenge_id@, i) && first_member(
                        self.entries@[i].members@,
                        user,
                        j,
                    ) && *milestones == self.entries@[i].members@[j].milestones,
                Err(e) => if has_entry_of(self.entries@, challenge_id@) {
                    e == SavingsError::NotParticipant && !has_member(
                        self.entries@[choose|i: int|
                            first_entry_of(self.entries@, challenge_id@, i)].members@,
                        user,
                    )
                } else {
                    e == SavingsError::ChallengeNotFound
                },
            },
    {
        let i = match find_entry(&self.entries, challenge_id) {
            Some(i) => i,
            None => {
                return Err(SavingsError::ChallengeNotFound);
            },
        };
        match find_member(&self.entries[i].members, user) {
            Some(j) => Ok(&self.entries[i].members[j].milestones),
            None => Err(SavingsError::NotParticipant),
        }
    }

    /// The group milestones of the challenge `challenge_id`.
    pub fn get_group_milestones(&self, challenge_id: &[u8; 32]) -> (result: Result<
        &Vec<Milestone>,
        SavingsError,
    >)
        ensures
            match result {
                Ok(milestones) => exists|i: int|
                    first_entry_of(self.entries@, challenge_id@, i) && *milestones
                        == self.entries@[i].group_milestones,
                Err(e) => e == SavingsError::ChallengeNotFound && !has_entry_of(
                    self.entries@,
                    challenge_id@,
                ),
            },
    {
        match find_entry(&self.entries, challenge_id) {
            Some(i) => Ok(&self.entries[i].group_milestones),
            None => Err(SavingsError::ChallengeNotFound),
        }
    }

    /// Why a milestone cannot be added to the challenge `challenge_id` by
    /// `creator`, if that is so.
    pub open spec fn milestone_refusal(&self, creator: AccountId, challenge_id: Seq<u8>) -> Option<
        SavingsError,
    > {
        if !has_entry_of(self.entries@, challenge_id) {
            Some(SavingsError::ChallengeNotFound)
        } else if self.entries@[choose|i: int|
            first_entry_of(self.entries@, challenge_id, i)].challenge.creator != creator {
            Some(SavingsError::NotAuthorized)
        } else {
            None
        }
    }

    /// Adds a group milestone, not reached yet, to the challenge
    /// `challenge_id`. Only the creator of the challenge may do so. The
    /// personal milestones of those who have joined stay as they are.
    pub fn create_milestone(
        &mut self,
        creator: AccountId,
        challenge_id: &[u8; 32],
        description: String,
        target_amount: i128,
        reward_bonus: u32,
    ) -> (result: Result<(), SavingsError>)
        ensures
            match old(self).milestone_refusal(creator, challenge_id@) {
                Some(e) => result == Err::<(), SavingsError>(e) && *final(self) == *old(self),
                None => {
                    let i = choose|i: int| first_entry_of(old(self).entries@, challenge_id@, i);
                    &&& result is Ok
                    &&& *final(self) == (SavingsChallenge {
                        entries: final(self).entries,
                        ..*old(self)
                    })
                    &&& final(self).entries@.len() == old(self).entries@.len()
                    &&& forall|k: int|
                        0 <= k < old(self).entries@.len() && k != i ==> final(self).entries@[k]
                            == old(self).entries@[k]
                    &&& final(self).entries@[i] == (ChallengeEntry {
                        group_milestones: final(self).entries@[i].group_milestones,
                        ..old(self).entries@[i]
                    })
                    &&& final(self).entries@[i].group_milestones@ == old(self).entries@[i].group_milestones@.push(
                        Milestone {
                            description,
                            target_amount,
                            reached: false,
                            reached_at: 0,
                            reward_bonus,
                        },
                    )
                },
            },
            old(self).continued_by(final(self)),
            old(self).logged() ==> final(self).logged(),
            old(self).aligned() ==> final(self).aligned(),
    {
        let i = match find_entry(&self.entries, challenge_id) {
            Some(i) => i,
            None => {
                return Err(SavingsError::ChallengeNotFound);
            },
        };
        if self.entries[i].challenge.creator != creator {
            return Err(SavingsError::NotAuthorized);
        }
        let entry = &mut self.entries[i];
        entry.group_milestones.push(
            Milestone { description, target_amount, reached: false, reached_at: 0, reward_bonus },
        );
        proof {
            if old(self).logged() {
                assert(old(self).entries@[i as int].logged());
                assert(self.entries@[i as int].members == old(self).entries@[i as int].members);
            }
        }
        Ok(())
    }

    /// The identifiers of the challenges that `user` has joined, in the order
    /// of joining.
    pub fn get_user_challenges(&self, user: AccountId) -> (ids: Vec<[u8; 32]>)
        ensures
            ids@ == joined_by(self.joined@, user),
    {
        let mut ids: Vec<[u8; 32]> = Vec::new();
        let mut k: usize = 0;
        while k < self.joined.len()
            invariant
                k <= self.joined.len(),
                ids@ == joined_by(self.joined@.take(k as int), user),
            decreases self.joined.len() - k,
        {
            assert(self.joined@.take(k as int + 1).drop_last() =~= self.joined@.take(k as int));
            assert(self.joined@.take(k as int + 1).last() == self.joined@[k as int]);
            if self.joined[k].user == user {
                ids.push(self.joined[k].challenge_id);
            }
            k += 1;
        }
        assert(self.joined@.take(k as int) =~= self.joined@);
        ids
    }

    /// The challenge with the identifier `challenge_id`.
    pub fn get_challenge(&self, challenge_id: &[u8; 32]) -> (result: Result<&Challenge, SavingsError>)
        ensures
            match result {
                Ok(challenge) => exists|i: int|
                    first_entry_of(self.entries@, challenge_id@, i) && *challenge
                        == self.entries@[i].challenge,
                Err(e) => e == SavingsError::ChallengeNotFound && !has_entry_of(
                    self.entries@,
                    challenge_id@,
                ),
            },
    {
        match find_entry(&self.entries, challenge_id) {
            Some(i) => Ok(&self.entries[i].challenge),
            None => Err(SavingsError::ChallengeNotFound),
        }
    }
}

} // verus!
