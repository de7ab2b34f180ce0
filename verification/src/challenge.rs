//! Savings challenges: a goal, a deadline and a set of participants whose
//! contributions are logged, summed and followed by streaks.

use vstd::prelude::*;
use crate::account::{AccountId, is_member};
use crate::arith::{fits_i128, weeks_between, weeks_elapsed};
use crate::table::Table;

verus! {

/// The longest gap between two contributions that continues a streak: eight days.
pub const STREAK_GRACE_SECONDS: u64 = 691200;

/// The longest challenge: two years of weeks.
pub const MAX_DURATION_WEEKS: u32 = 104;

/// Why an operation on a savings challenge was refused.
#[derive(Clone, Copy, Debug, PartialEq, Eq, Structural)]
pub enum SavingsError {
    NotAuthorized,
    ChallengeNotFound,
    ChallengeInactive,
    NotParticipant,
    InsufficientAmount,
    InvalidParameters,
    ChallengeExpired,
    AlreadyFinalized,
    GoalNotReached,
    ContributionTooEarly,
    /// A result that cannot be held in the integer type of its field.
    ArithmeticError,
}

impl SavingsError {
    /// The number under which the error is reported.
    pub fn code(&self) -> (code: u32)
        ensures
            code == match *self {
                SavingsError::NotAuthorized => 1u32,
                SavingsError::ChallengeNotFound => 2u32,
                SavingsError::ChallengeInactive => 3u32,
                SavingsError::NotParticipant => 4u32,
                SavingsError::InsufficientAmount => 5u32,
                SavingsError::InvalidParameters => 6u32,
                SavingsError::ChallengeExpired => 7u32,
                SavingsError::AlreadyFinalized => 8u32,
                SavingsError::GoalNotReached => 9u32,
                SavingsError::ContributionTooEarly => 10u32,
                SavingsError::ArithmeticError => 11u32,
            },
    {
        match self {
            SavingsError::NotAuthorized => 1,
            SavingsError::ChallengeNotFound => 2,
            SavingsError::ChallengeInactive => 3,
            SavingsError::NotParticipant => 4,
            SavingsError::InsufficientAmount => 5,
            SavingsError::InvalidParameters => 6,
            SavingsError::ChallengeExpired => 7,
            SavingsError::AlreadyFinalized => 8,
            SavingsError::GoalNotReached => 9,
            SavingsError::ContributionTooEarly => 10,
            SavingsError::ArithmeticError => 11,
        }
    }
}

/// A time-boxed, goal-targeted group savings activity.
pub struct SavingsChallenge {
    pub id: u32,
    pub creator: AccountId,
    pub name: String,
    pub description: String,
    pub goal_amount: i128,
    pub weekly_amount: i128,
    pub current_amount: i128,
    pub participants: Vec<AccountId>,
    pub created_at: u64,
    pub deadline: u64,
    pub is_active: bool,
    pub min_weekly_required: bool,
    pub allow_early_withdrawal: bool,
}

/// One contribution to a challenge.
#[derive(Clone, Copy, Debug, PartialEq, Eq, Structural)]
pub struct Contribution {
    pub contributor: AccountId,
    pub amount: i128,
    pub timestamp: u64,
    pub week_number: u32,
}

/// What one participant has contributed to one challenge so far.
#[derive(Clone, Copy, Debug, PartialEq, Eq, Structural)]
pub struct ParticipantStats {
    pub total_contributed: i128,
    pub contribution_count: u32,
    pub last_contribution: u64,
    pub current_streak: u32,
}

/// A challenge with the log of its contributions and the statistics of its participants.
pub struct ChallengeBook {
    pub challenge: SavingsChallenge,
    pub contributions: Vec<Contribution>,
    pub stats: Table<AccountId, ParticipantStats>,
}

/// The statistics of a participant who has not contributed.
pub open spec fn no_stats() -> ParticipantStats {
    ParticipantStats {
        total_contributed: 0,
        contribution_count: 0,
        last_contribution: 0,
        current_streak: 0,
    }
}

/// The sum of the amounts of `contributions`.
pub open spec fn contribution_sum(contributions: Seq<Contribution>) -> int
    decreases contributions.len(),
{
    if contributions.len() == 0 {
        0
    } else {
        contribution_sum(contributions.drop_last()) + contributions.last().amount
    }
}

/// The sum of the amounts that `who` has contributed according to `contributions`.
pub open spec fn contributed_by(contributions: Seq<Contribution>, who: AccountId) -> int
    decreases contributions.len(),
{
    if contributions.len() == 0 {
        0
    } else {
        contributed_by(contributions.drop_last(), who) + (if contributions.last().contributor
            == who {
            contributions.last().amount as int
        } else {
            0
        })
    }
}

/// The number of the contributions in `contributions` that `who` has made.
pub open spec fn count_by(contributions: Seq<Contribution>, who: AccountId) -> int
    decreases contributions.len(),
{
    if contributions.len() == 0 {
        0
    } else {
        count_by(contributions.drop_last(), who) + (if contributions.last().contributor == who {
            1int
        } else {
            0int
        })
    }
}

/// The streak after a contribution at `now`, where the one before was made at
/// `previous` (zero for none) and left a streak of `streak`: one longer within
/// the grace window of eight days, and one otherwise.
pub open spec fn next_streak(previous: u64, streak: u32, now: u64) -> int {
    if previous > 0 && now - previous <= 691200 {
        streak + 1
    } else {
        1
    }
}

/// The time of the last contribution that `who` has made according to
/// `contributions`; zero for none.
pub open spec fn last_by(contributions: Seq<Contribution>, who: AccountId) -> u64
    decreases contributions.len(),
{
    if contributions.len() == 0 {
        0
    } else if contributions.last().contributor == who {
        contributions.last().timestamp
    } else {
        last_by(contributions.drop_last(), who)
    }
}

/// The streak of `who` according to `contributions`: the streak rule applied
/// to the contributions of `who`, one after the other.
pub open spec fn streak_by(contributions: Seq<Contribution>, who: AccountId) -> u32
    decreases contributions.len(),
{
    if contributions.len() == 0 {
        0
    } else if contributions.last().contributor == who {
        next_streak(
            last_by(contributions.drop_last(), who),
            streak_by(contributions.drop_last(), who),
            contributions.last().timestamp,
        ) as u32
    } else {
        streak_by(contributions.drop_last(), who)
    }
}

/// The one-based number of the week of `now` in a challenge created at `created_at`.
pub open spec fn week_number(created_at: u64, now: u64) -> int {
    weeks_between(created_at, now) + 1
}

/// `list` without the later occurrences of what occurs in it more than once.
pub open spec fn distinct(list: Seq<AccountId>) -> Seq<AccountId>
    decreases list.len(),
{
    if list.len() == 0 {
        Seq::empty()
    } else {
        let earlier = distinct(list.drop_last());
        if earlier.contains(list.last()) {
            earlier
        } else {
            earlier.push(list.last())
        }
    }
}

/// `distinct` keeps exactly the members of the list, each once.
pub proof fn lemma_distinct(list: Seq<AccountId>)
    ensures
        distinct(list).no_duplicates(),
        forall|a: AccountId| distinct(list).contains(a) <==> list.contains(a),
        list.len() > 0 ==> distinct(list).len() > 0,
        distinct(list).len() <= list.len(),
    decreases list.len(),
{
    if list.len() > 0 {
        let earlier = distinct(list.drop_last());
        lemma_distinct(list.drop_last());
        assert forall|a: AccountId| distinct(list).contains(a) <==> list.contains(a) by {
            if list.contains(a) {
                let i = choose|i: int| 0 <= i < list.len() && list[i] == a;
                if i < list.len() - 1 {
                    assert(list.drop_last()[i] == a);
                    assert(list.drop_last().contains(a));
                    assert(earlier.contains(a));
                    let j = choose|j: int| 0 <= j < earlier.len() && earlier[j] == a;
                    assert(distinct(list)[j] == a);
                } else if !earlier.contains(a) {
                    assert(distinct(list)[earlier.len() as int] == a);
                }
            }
            if distinct(list).contains(a) {
                let j = choose|j: int| 0 <= j < distinct(list).len() && distinct(list)[j] == a;
                if j < earlier.len() {
                    assert(earlier[j] == a);
                    assert(earlier.contains(a));
                    assert(list.drop_last().contains(a));
                    let i = choose|i: int|
                        0 <= i < list.drop_last().len() && list.drop_last()[i] == a;
                    assert(list[i] == a);
                } else {
                    assert(list[list.len() - 1] == a);
                }
            }
        }
        if !earlier.contains(list.last()) {
            assert(distinct(list)[earlier.len() as int] == list.last());
        }
    }
}

/// Adding a contribution adds its amount to the sum.
pub proof fn lemma_contribution_push(contributions: Seq<Contribution>, c: Contribution)
    ensures
        contribution_sum(contributions.push(c)) == contribution_sum(contributions) + c.amount,
{
    assert(contributions.push(c).drop_last() =~= contributions);
}

/// The streak after a contribution at `now`.
pub fn advance_streak(previous: u64, streak: u32, now: u64) -> (next: Option<u32>)
    ensures
        next == (if next_streak(previous, streak, now) <= u32::MAX {
            Some(next_streak(previous, streak, now) as u32)
        } else {
            None
        }),
{
    if previous > 0 && (now <= previous || now - previous <= STREAK_GRACE_SECONDS) {
        streak.checked_add(1)
    } else {
        Some(1)
    }
}

impl ParticipantStats {
    /// The statistics of a participant who has not contributed.
    pub fn zero() -> (stats: ParticipantStats)
        ensures
            stats == no_stats(),
    {
        ParticipantStats {
            total_contributed: 0,
            contribution_count: 0,
            last_contribution: 0,
            current_streak: 0,
        }
    }

    /// Whether a contribution of `amount` at `now` can be counted without overflow.
    pub open spec fn countable(&self, amount: i128, now: u64) -> bool {
        &&& fits_i128(self.total_contributed + amount)
        &&& self.contribution_count < u32::MAX
        &&& next_streak(self.last_contribution, self.current_streak, now) <= u32::MAX
    }

    /// These statistics after a contribution of `amount` at `now`.
    pub open spec fn counted(&self, amount: i128, now: u64) -> ParticipantStats {
        ParticipantStats {
            total_contributed: (self.total_contributed + amount) as i128,
            contribution_count: (self.contribution_count + 1) as u32,
            last_contribution: now,
            current_streak: next_streak(self.last_contribution, self.current_streak, now) as u32,
        }
    }

    /// Counts a contribution of `amount` at `now`: the total, the count, the
    /// time of the last contribution and the streak. `None` where a counter
    /// cannot hold the result.
    pub fn record(&self, amount: i128, now: u64) -> (next: Option<ParticipantStats>)
        ensures
            next == (if self.countable(amount, now) {
                Some(self.counted(amount, now))
            } else {
                None
            }),
    {
        let total_contributed = match self.total_contributed.checked_add(amount) {
            Some(total) => total,
            None => {
                return None;
            },
        };
        let contribution_count = match self.contribution_count.checked_add(1) {
            Some(count) => count,
            None => {
                return None;
            },
        };
        let current_streak = match advance_streak(self.last_contribution, self.current_streak, now) {
            Some(streak) => streak,
            None => {
                return None;
            },
        };
        Some(
            ParticipantStats {
                total_contributed,
                contribution_count,
                last_contribution: now,
                current_streak,
            },
        )
    }
}

impl ChallengeBook {
    /// The challenge's amount equals the sum of the contributions logged for it.
    pub open spec fn settled(&self) -> bool {
        self.challenge.current_amount == contribution_sum(self.contributions@)
    }

    /// The statistics of `who` are those of the logged contributions of
    /// `who`: their sum, their number, the time of the last, and the streak
    /// that the streak rule gives them.
    pub open spec fn tallied_for(&self, who: AccountId) -> bool {
        &&& self.stats_of(who).total_contributed == contributed_by(self.contributions@, who)
        &&& self.stats_of(who).contribution_count == count_by(self.contributions@, who)
        &&& self.stats_of(who).last_contribution == last_by(self.contributions@, who)
        &&& self.stats_of(who).current_streak == streak_by(self.contributions@, who)
    }

    /// The statistics of each participant agree with the log.
    pub open spec fn tallied(&self) -> bool {
        forall|who: AccountId| #[trigger] self.tallied_for(who)
    }

    /// The statistics of `participant`: those kept, or none.
    pub open spec fn stats_of(&self, participant: AccountId) -> ParticipantStats {
        if self.stats@.dom().contains(participant) {
            self.stats@[participant]
        } else {
            no_stats()
        }
    }

    /// Why a contribution of `amount` by `contributor` at `now` is refused, if it is.
    pub open spec fn contribution_refusal(&self, contributor: AccountId, amount: i128, now: u64)
        -> Option<SavingsError> {
        if !self.challenge.is_active {
            Some(SavingsError::ChallengeInactive)
        } else if now > self.challenge.deadline {
            Some(SavingsError::ChallengeExpired)
        } else if !self.challenge.participants@.contains(contributor) {
            Some(SavingsError::NotParticipant)
        } else if week_number(self.challenge.created_at, now) > u32::MAX || !fits_i128(
            self.challenge.current_amount + amount,
        ) || !self.stats_of(contributor).countable(amount, now) {
            Some(SavingsError::ArithmeticError)
        } else {
            None
        }
    }

    /// `after` is this book with a contribution of `amount` by `contributor` at
    /// `now` applied: logged with its week, added to the challenge's amount and
    /// counted in the contributor's statistics.
    pub open spec fn contributed(
        &self,
        after: &ChallengeBook,
        contributor: AccountId,
        amount: i128,
        now: u64,
    ) -> bool {
        &&& after.challenge == (SavingsChallenge {
            current_amount: (self.challenge.current_amount + amount) as i128,
            ..self.challenge
        })
        &&& after.contributions@ == self.contributions@.push(
            Contribution {
                contributor,
                amount,
                timestamp: now,
                week_number: week_number(self.challenge.created_at, now) as u32,
            },
        )
        &&& after.stats@ == self.stats@.insert(
            contributor,
            self.stats_of(contributor).counted(amount, now),
        )
    }

    /// Decides whether a contribution would be accepted, without making it.
    pub fn check_contribution(&self, contributor: AccountId, amount: i128, now: u64) -> (refusal:
        Option<SavingsError>)
        ensures
            refusal == self.contribution_refusal(contributor, amount, now),
    {
        if !self.challenge.is_active {
            return Some(SavingsError::ChallengeInactive);
        }
        if now > self.challenge.deadline {
            return Some(SavingsError::ChallengeExpired);
        }
        if !is_member(&self.challenge.participants, contributor) {
            return Some(SavingsError::NotParticipant);
        }
        if weeks_elapsed(self.challenge.created_at, now) >= 4294967295 {
            return Some(SavingsError::ArithmeticError);
        }
        if self.challenge.current_amount.checked_add(amount).is_none() {
            return Some(SavingsError::ArithmeticError);
        }
        let stats = match self.stats.get(contributor) {
            Some(stats) => stats,
            None => ParticipantStats::zero(),
        };
        if stats.record(amount, now).is_none() {
            return Some(SavingsError::ArithmeticError);
        }
        None
    }

    /// Applies a contribution of `amount` by `contributor` at the time `now`,
    /// and tells whether the challenge's amount has reached the goal with it.
    /// A refused contribution changes nothing.
    pub fn contribute(&mut self, contributor: AccountId, amount: i128, now: u64) -> (result: Result<
        bool,
        SavingsError,
    >)
        ensures
            match old(self).contribution_refusal(contributor, amount, now) {
                Some(e) => result == Err::<bool, SavingsError>(e) && *final(self) == *old(self),
                None => {
                    &&& result == Ok::<bool, SavingsError>(
                        old(self).challenge.current_amount + amount >= old(self).challenge.goal_amount,
                    )
                    &&& old(self).contributed(final(self), contributor, amount, now)
                },
            },
            old(self).settled() ==> final(self).settled(),
            old(self).tallied() ==> final(self).tallied(),
    {
        match self.check_contribution(contributor, amount, now) {
            Some(e) => {
                return Err(e);
            },
            None => {},
        }
        let week: u64 = weeks_elapsed(self.challenge.created_at, now) + 1;
        let contribution = Contribution {
            contributor,
            amount,
            timestamp: now,
            week_number: week as u32,
        };
        proof {
            lemma_contribution_push(self.contributions@, contribution);
        }
        self.contributions.push(contribution);
        self.challenge.current_amount = self.challenge.current_amount + amount;
        let stats = match self.stats.get(contributor) {
            Some(stats) => stats,
            None => ParticipantStats::zero(),
        };
        match stats.record(amount, now) {
            Some(next) => {
                self.stats.set(contributor, next);
            },
            None => {},
        }
        proof {
            if old(self).tallied() {
                assert(self.contributions@.drop_last() =~= old(self).contributions@);
                assert forall|who: AccountId| #[trigger] self.tallied_for(who) by {
                    assert(old(self).tallied_for(who));
                }
            }
        }
        Ok(self.challenge.current_amount >= self.challenge.goal_amount)
    }

    /// Why `caller` may not finalize the challenge at `now`, if that is so.
    pub open spec fn finalize_refusal(&self, caller: AccountId, now: u64) -> Option<SavingsError> {
        if caller != self.challenge.creator && !self.challenge.participants@.contains(caller) {
            Some(SavingsError::NotAuthorized)
        } else if !self.challenge.is_active {
            Some(SavingsError::AlreadyFinalized)
        } else if self.challenge.current_amount < self.challenge.goal_amount && now
            <= self.challenge.deadline {
            Some(SavingsError::InvalidParameters)
        } else {
            None
        }
    }

    /// `after` is this book with the challenge finalized.
    pub open spec fn finalized(&self, after: &ChallengeBook) -> bool {
        *after == (ChallengeBook {
            challenge: SavingsChallenge { is_active: false, ..self.challenge },
            ..*self
        })
    }

    /// Decides whether `caller` may finalize the challenge at `now`.
    pub fn check_finalize(&self, caller: AccountId, now: u64) -> (refusal: Option<SavingsError>)
        ensures
            refusal == self.finalize_refusal(caller, now),
    {
        if caller != self.challenge.creator && !is_member(&self.challenge.participants, caller) {
            return Some(SavingsError::NotAuthorized);
        }
        if !self.challenge.is_active {
            return Some(SavingsError::AlreadyFinalized);
        }
        if self.challenge.current_amount < self.challenge.goal_amount && now
            <= self.challenge.deadline {
            return Some(SavingsError::InvalidParameters);
        }
        None
    }

    /// Finalizes the challenge on behalf of `caller`, its creator or one of its
    /// participants, once the goal is reached or the deadline has passed, and
    /// tells whether the goal was reached. A finalized challenge stays so.
    pub fn finalize(&mut self, caller: AccountId, now: u64) -> (result: Result<bool, SavingsError>)
        ensures
            match old(self).finalize_refusal(caller, now) {
                Some(e) => result == Err::<bool, SavingsError>(e) && *final(self) == *old(self),
                None => {
                    &&& result == Ok::<bool, SavingsError>(
                        old(self).challenge.current_amount >= old(self).challenge.goal_amount,
                    )
                    &&& old(self).finalized(final(self))
                },
            },
            old(self).settled() ==> final(self).settled(),
            old(self).tallied() ==> final(self).tallied(),
    {
        match self.check_finalize(caller, now) {
            Some(e) => {
                return Err(e);
            },
            None => {},
        }
        self.challenge.is_active = false;
        proof {
            if old(self).tallied() {
                assert forall|who: AccountId| #[trigger] self.tallied_for(who) by {
                    assert(old(self).tallied_for(who));
                }
            }
        }
        Ok(self.challenge.current_amount >= self.challenge.goal_amount)
    }
}

/// A contribution keeps the challenge settled: one record is appended to the
/// log, with the contributor, the amount and the time; the challenge's amount
/// and the sum of the log both grow by the amount, so an amount that was the
/// sum of the log before is so after.
pub proof fn lemma_contribution_settles(
    before: &ChallengeBook,
    after: &ChallengeBook,
    contributor: AccountId,
    amount: i128,
    now: u64,
)
    requires
        before.contribution_refusal(contributor, amount, now) is None,
        before.contributed(after, contributor, amount, now),
    ensures
        after.contributions@.len() == before.contributions@.len() + 1,
        after.contributions@.drop_last() == before.contributions@,
        after.contributions@.last().contributor == contributor,
        after.contributions@.last().amount == amount,
        after.contributions@.last().timestamp == now,
        after.challenge.current_amount == before.challenge.current_amount + amount,
        contribution_sum(after.contributions@) == contribution_sum(before.contributions@) + amount,
        before.settled() ==> after.settled(),
{
    assert(after.contributions@.drop_last() =~= before.contributions@);
}

/// A contribution is accepted where nothing stands against it: the challenge
/// is active and not past its deadline, the contributor takes part, and the
/// amounts and counters can hold the sums.
pub proof fn lemma_contribution_accepted(
    book: &ChallengeBook,
    contributor: AccountId,
    amount: i128,
    now: u64,
)
    requires
        book.challenge.is_active,
        now <= book.challenge.deadline,
        book.challenge.participants@.contains(contributor),
        week_number(book.challenge.created_at, now) <= u32::MAX,
        fits_i128(book.challenge.current_amount + amount),
        book.stats_of(contributor).countable(amount, now),
    ensures
        book.contribution_refusal(contributor, amount, now) is None,
{
}

/// Finalizing succeeds once: after a challenge was finalized, whoever may
/// finalize it is told that it already is, at any later time, and the
/// challenge is never active again by finalizing.
pub proof fn lemma_finalize_once(
    before: &ChallengeBook,
    after: &ChallengeBook,
    first: AccountId,
    at: u64,
    second: AccountId,
    later: u64,
)
    requires
        before.finalize_refusal(first, at) is None,
        before.finalized(after),
        second == after.challenge.creator || after.challenge.participants@.contains(second),
    ensures
        !after.challenge.is_active,
        after.finalize_refusal(second, later) == Some(SavingsError::AlreadyFinalized),
{
}

} // verus!
