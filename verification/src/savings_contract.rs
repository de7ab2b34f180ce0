//! The savings-challenge contract: the challenges of one administrator's
//! contract, created, contributed to and finalized by their participants.

use vstd::prelude::*;
use crate::account::{AccountId, is_member};
use crate::arith::{
    fits_i128, trunc_div, weeks_between, weeks_elapsed, div_toward_zero, WEEK_SECONDS,
};
use crate::challenge::{
    ChallengeBook, Contribution, ParticipantStats, SavingsChallenge, SavingsError, distinct,
    lemma_distinct, no_stats, MAX_DURATION_WEEKS,
};
use crate::host_list::{host_ids, host_len, list_contains, list_len, list_push_back, LIST_LIMIT};
use crate::table::Table;
use crate::text::{byte_length, text_length};

verus! {

/// The state of the savings-challenge contract.
pub struct SavingsChallengeContract {
    pub admin: AccountId,
    pub next_challenge_id: u32,
    pub contract_name: String,
    pub contract_version: String,
    pub books: Vec<ChallengeBook>,
}

/// `i` is the first book in `books` whose challenge has the identifier `id`.
pub open spec fn first_challenge(books: Seq<ChallengeBook>, id: u32, i: int) -> bool {
    &&& 0 <= i < books.len()
    &&& books[i].challenge.id == id
    &&& forall|j: int| 0 <= j < i ==> books[j].challenge.id != id
}

/// A challenge with the identifier `id` is among `books`.
pub open spec fn has_challenge(books: Seq<ChallengeBook>, id: u32) -> bool {
    exists|i: int| 0 <= i < books.len() && books[i].challenge.id == id
}

/// The first book of a challenge is the only first one.
pub proof fn lemma_first_challenge_unique(books: Seq<ChallengeBook>, id: u32, i: int, k: int)
    requires
        first_challenge(books, id, i),
        first_challenge(books, id, k),
    ensures
        i == k,
{
    if k < i {
        assert(books[k].challenge.id != id);
    } else if i < k {
        assert(books[i].challenge.id != id);
    }
}

/// The place of the first book whose challenge has the identifier `id`.
pub fn find_challenge(books: &Vec<ChallengeBook>, id: u32) -> (found: Option<usize>)
    ensures
        match found {
            Some(i) => first_challenge(books@, id, i as int) && i as int == (choose|c: int|
                first_challenge(books@, id, c)),
            None => !has_challenge(books@, id),
        },
{
    let mut i: usize = 0;
    while i < books.len()
        invariant
            i <= books.len(),
            forall|j: int| 0 <= j < i ==> books[j].challenge.id != id,
        decreases books.len() - i,
    {
        if books[i].challenge.id == id {
            proof {
                let c = choose|c: int| first_challenge(books@, id, c);
                lemma_first_challenge_unique(books@, id, i as int, c);
            }
            return Some(i);
        }
        i += 1;
    }
    None
}

/// The statistics that a new challenge keeps: none yet, for each of `members`.
pub open spec fn zeroed(members: Seq<AccountId>) -> Map<AccountId, ParticipantStats> {
    Map::new(|a: AccountId| members.contains(a), |a: AccountId| no_stats())
}

/// The identifiers of the challenges among `books` in which `user` takes part,
/// in the order of the books.
pub open spec fn challenges_of(books: Seq<ChallengeBook>, user: AccountId) -> Seq<u32>
    decreases books.len(),
{
    if books.len() == 0 {
        Seq::empty()
    } else {
        let earlier = challenges_of(books.drop_last(), user);
        if books.last().challenge.participants@.contains(user) {
            earlier.push(books.last().challenge.id)
        } else {
            earlier
        }
    }
}

/// `list` without the later occurrences of what occurs in it more than once.
pub fn without_repeats(list: &Vec<AccountId>) -> (members: Vec<AccountId>)
    ensures
        members@ == distinct(list@),
{
    let mut members: Vec<AccountId> = Vec::new();
    let mut k: usize = 0;
    while k < list.len()
        invariant
            k <= list.len(),
            members@ == distinct(list@.take(k as int)),
        decreases list.len() - k,
    {
        assert(list@.take(k as int + 1).drop_last() =~= list@.take(k as int));
        if !is_member(&members, list[k]) {
            members.push(list[k]);
        }
        k += 1;
    }
    assert(list@.take(k as int) =~= list@);
    members
}

/// Statistics of no contributions for each of `members`.
pub fn fresh_stats(members: &Vec<AccountId>) -> (stats: Table<AccountId, ParticipantStats>)
    ensures
        stats@ == zeroed(members@),
{
    let mut stats: Table<AccountId, ParticipantStats> = Table::new();
    let mut k: usize = 0;
    assert(stats@ =~= zeroed(members@.take(0)));
    while k < members.len()
        invariant
            k <= members.len(),
            stats@ == zeroed(members@.take(k as int)),
        decreases members.len() - k,
    {
        stats.set(members[k], ParticipantStats::zero());
        proof {
            let before = members@.take(k as int);
            let after = members@.take(k as int + 1);
            assert(after =~= before.push(members@[k as int]));
            assert forall|a: AccountId| after.contains(a) <==> (before.contains(a) || a
                == members@[k as int]) by {
                if after.contains(a) {
                    let i = choose|i: int| 0 <= i < after.len() && after[i] == a;
                    if i < k {
                        assert(before[i] == a);
                    }
                }
                if before.contains(a) {
                    let i = choose|i: int| 0 <= i < before.len() && before[i] == a;
                    assert(after[i] == a);
                }
                if a == members@[k as int] {
                    assert(after[k as int] == a);
                }
            }
            assert(stats@ =~= zeroed(after));
        }
        k += 1;
    }
    assert(members@.take(k as int) =~= members@);
    stats
}

impl SavingsChallengeContract {
    /// Enters the challenge `challenge_id` in `list`, the list of the
    /// challenges of one user that the host keeps, and tells whether the list
    /// was looked at. The identifier is put behind the last entry unless the
    /// list holds it already. A list beyond the limit is not looked at and
    /// stays as it is.
    pub fn add_challenge_to_user(list: &mut soroban_sdk::Vec<u32>, challenge_id: u32) -> (entered:
        bool)
        ensures
            entered == (host_len(*old(list)) <= 4096),
            !entered ==> *final(list) == *old(list),
            entered ==> host_ids(*final(list)) == (if host_ids(*old(list)).contains(challenge_id) {
                host_ids(*old(list))
            } else {
                host_ids(*old(list)).push(challenge_id)
            }),
    {
        if list_len(list) > LIST_LIMIT {
            return false;
        }
        if !list_contains(list, challenge_id) {
            list_push_back(list, challenge_id);
        }
        true
    }

    /// For every challenge the amount equals the sum of its logged contributions.
    pub open spec fn settled(&self) -> bool {
        forall|i: int| 0 <= i < self.books@.len() ==> (#[trigger] self.books@[i]).settled()
    }

    /// For every challenge the statistics of the participants agree with the log.
    pub open spec fn tallied(&self) -> bool {
        forall|i: int| 0 <= i < self.books@.len() ==> (#[trigger] self.books@[i]).tallied()
    }

    /// `after` continues this contract: every challenge is still there, in
    /// its place; a challenge that is finalized here is finalized there; and
    /// the contributions logged here are logged there, unchanged and before
    /// any others.
    pub open spec fn continued_by(&self, after: &SavingsChallengeContract) -> bool {
        &&& self.books@.len() <= after.books@.len()
        &&& forall|i: int|
            0 <= i < self.books@.len() ==> {
                &&& (#[trigger] after.books@[i]).challenge.id == self.books@[i].challenge.id
                &&& !self.books@[i].challenge.is_active ==> !after.books@[i].challenge.is_active
                &&& self.books@[i].contributions@.len() <= after.books@[i].contributions@.len()
                &&& after.books@[i].contributions@.take(self.books@[i].contributions@.len() as int)
                    =~= self.books@[i].contributions@
            }
    }

    /// The challenges carry the identifiers 1, 2, 3 and so on, in the order in
    /// which they were created, and the next identifier follows the last.
    pub open spec fn numbered(&self) -> bool {
        &&& self.next_challenge_id == self.books@.len() + 1
        &&& forall|i: int|
            0 <= i < self.books@.len() ==> (#[trigger] self.books@[i]).challenge.id == i + 1
    }

    /// A contract without challenges, administered by `admin`.
    pub fn initialize(admin: AccountId) -> (contract: Self)
        ensures
            contract.admin == admin,
            contract.next_challenge_id == 1,
            contract.contract_name@ == "StellarSave Challenge Contract"@,
            contract.contract_version@ == "1.0.0"@,
            contract.books@.len() == 0,
            contract.settled(),
            contract.tallied(),
            contract.numbered(),
    {
        SavingsChallengeContract {
            admin,
            next_challenge_id: 1,
            contract_name: "StellarSave Challenge Contract".to_owned(),
            contract_version: "1.0.0".to_owned(),
            books: Vec::new(),
        }
    }

    /// Why the creation of a challenge is refused, if it is.
    pub open spec fn create_refusal(
        &self,
        name: Seq<char>,
        goal_amount: i128,
        weekly_amount: i128,
        participants: Seq<AccountId>,
        duration_weeks: u32,
        now: u64,
    ) -> Option<SavingsError> {
        if goal_amount <= 0 || weekly_amount <= 0 || duration_weeks == 0 || duration_weeks > 104
            || participants.len() == 0 || byte_length(name) < 3 {
            Some(SavingsError::InvalidParameters)
        } else if now + duration_weeks * 604800 > u64::MAX || self.next_challenge_id == u32::MAX {
            Some(SavingsError::ArithmeticError)
        } else {
            None
        }
    }

    /// Creates an active challenge with nothing saved yet and returns its
    /// identifier, the next in line.
    ///
    /// The goal and the weekly amount must be positive, the duration between
    /// one week and 104 weeks, the name at least three bytes long, and at least
    /// one participant must be listed. Each listed participant takes part once
    /// and starts with statistics of no contributions. The deadline falls
    /// `duration_weeks` weeks after `now`.
    pub fn create_challenge(
        &mut self,
        creator: AccountId,
        name: String,
        description: String,
        goal_amount: i128,
        weekly_amount: i128,
        participants: Vec<AccountId>,
        duration_weeks: u32,
        min_weekly_required: bool,
        allow_early_withdrawal: bool,
        now: u64,
    ) -> (result: Result<u32, SavingsError>)
        ensures
            match old(self).create_refusal(
                name@,
                goal_amount,
                weekly_amount,
                participants@,
                duration_weeks,
                now,
            ) {
                Some(e) => result == Err::<u32, SavingsError>(e) && *final(self) == *old(self),
                None => {
                    let book = final(self).books@.last();
                    &&& result == Ok::<u32, SavingsError>(old(self).next_challenge_id)
                    &&& *final(self) == (SavingsChallengeContract {
                        next_challenge_id: (old(self).next_challenge_id + 1) as u32,
                        books: final(self).books,
                        ..*old(self)
                    })
                    &&& final(self).books@.len() == old(self).books@.len() + 1
                    &&& final(self).books@.drop_last() == old(self).books@
                    &&& book.challenge == (SavingsChallenge {
                        id: old(self).next_challenge_id,
                        creator,
                        name,
                        description,
                        goal_amount,
                        weekly_amount,
                        current_amount: 0,
                        participants: book.challenge.participants,
                        created_at: now,
                        deadline: (now + duration_weeks * 604800) as u64,
                        is_active: true,
                        min_weekly_required,
                        allow_early_withdrawal,
                    })
                    &&& book.challenge.participants@ == distinct(participants@)
                    &&& book.contributions@.len() == 0
                    &&& book.stats@ == zeroed(participants@)
                },
            },
            old(self).continued_by(final(self)),
            old(self).settled() ==> final(self).settled(),
            old(self).tallied() ==> final(self).tallied(),
            old(self).numbered() ==> final(self).numbered(),
    {
        if goal_amount <= 0 || weekly_amount <= 0 {
            return Err(SavingsError::InvalidParameters);
        }
        if duration_weeks == 0 || duration_weeks > MAX_DURATION_WEEKS {
            return Err(SavingsError::InvalidParameters);
        }
        if participants.len() == 0 {
            return Err(SavingsError::InvalidParameters);
        }
        if text_length(name.as_str()) < 3 {
            return Err(SavingsError::InvalidParameters);
        }
        let span: u64 = (duration_weeks as u64) * WEEK_SECONDS;
        let deadline = match now.checked_add(span) {
            Some(deadline) => deadline,
            None => {
                return Err(SavingsError::ArithmeticError);
            },
        };
        if self.next_challenge_id == u32::MAX {
            return Err(SavingsError::ArithmeticError);
        }
        let id = self.next_challenge_id;
        let members = without_repeats(&participants);
        let stats = fresh_stats(&members);
        proof {
            lemma_distinct(participants@);
            assert(zeroed(members@) =~= zeroed(participants@));
        }
        let book = ChallengeBook {
            challenge: SavingsChallenge {
                id,
                creator,
                name,
                description,
                goal_amount,
                weekly_amount,
                current_amount: 0,
                participants: members,
                created_at: now,
                deadline,
                is_active: true,
                min_weekly_required,
                allow_early_withdrawal,
            },
            contributions: Vec::new(),
            stats,
        };
        assert(book.settled());
        assert forall|who: AccountId| #[trigger] book.tallied_for(who) by {}
        self.books.push(book);
        self.next_challenge_id = id + 1;
        assert(self.books@.drop_last() =~= old(self).books@);
        Ok(id)
    }

    /// Why a contribution to the challenge `challenge_id` is refused, if it is.
    pub open spec fn contribution_refusal(
        &self,
        challenge_id: u32,
        contributor: AccountId,
        amount: i128,
        now: u64,
    ) -> Option<SavingsError> {
        if amount <= 0 {
            Some(SavingsError::InsufficientAmount)
        } else if !has_challenge(self.books@, challenge_id) {
            Some(SavingsError::ChallengeNotFound)
        } else {
            let i = choose|i: int| first_challenge(self.books@, challenge_id, i);
            self.books@[i].contribution_refusal(contributor, amount, now)
        }
    }

    /// Contributes `amount` on behalf of `contributor` to the challenge
    /// `challenge_id` at the time `now`, and tells whether the goal is reached
    /// with it.
    ///
    /// The amount must be positive, the challenge active and not past its
    /// deadline, and the contributor one of its participants. The contribution
    /// is logged with its week, added to the challenge's amount, and counted in
    /// the contributor's statistics and streak. The challenge stays active
    /// when the goal is reached.
    pub fn contribute(&mut self, challenge_id: u32, contributor: AccountId, amount: i128, now: u64)
        -> (result: Result<bool, SavingsError>)
        ensures
            match old(self).contribution_refusal(challenge_id, contributor, amount, now) {
                Some(e) => result == Err::<bool, SavingsError>(e) && *final(self) == *old(self),
                None => {
                    let i = choose|i: int| first_challenge(old(self).books@, challenge_id, i);
                    &&& result == Ok::<bool, SavingsError>(
                        old(self).books@[i].challenge.current_amount + amount >= old(self).books@[i].challenge.goal_amount,
                    )
                    &&& *final(self) == (SavingsChallengeContract {
                        books: final(self).books,
                        ..*old(self)
                    })
                    &&& final(self).books@.len() == old(self).books@.len()
                    &&& forall|k: int|
                        0 <= k < old(self).books@.len() && k != i ==> final(self).books@[k] == old(self).books@[k]
                    &&& old(self).books@[i].contributed(
                        &final(self).books@[i],
                        contributor,
                        amount,
                        now,
                    )
                },
            },
            old(self).continued_by(final(self)),
            old(self).settled() ==> final(self).settled(),
            old(self).tallied() ==> final(self).tallied(),
            old(self).numbered() ==> final(self).numbered(),
    {
        if amount <= 0 {
            return Err(SavingsError::InsufficientAmount);
        }
        let i = match find_challenge(&self.books, challenge_id) {
            Some(i) => i,
            None => {
                return Err(SavingsError::ChallengeNotFound);
            },
        };
        match self.books[i].check_contribution(contributor, amount, now) {
            Some(e) => {
                return Err(e);
            },
            None => {},
        }
        let book = &mut self.books[i];
        book.contribute(contributor, amount, now)
    }

    /// Why `caller` may not finalize the challenge `challenge_id` at `now`, if
    /// that is so.
    pub open spec fn finalize_refusal(&self, challenge_id: u32, caller: AccountId, now: u64)
        -> Option<SavingsError> {
        if !has_challenge(self.books@, challenge_id) {
            Some(SavingsError::ChallengeNotFound)
        } else {
            let i = choose|i: int| first_challenge(self.books@, challenge_id, i);
            self.books@[i].finalize_refusal(caller, now)
        }
    }

    /// Finalizes the challenge `challenge_id` on behalf of `finalizer`, its
    /// creator or one of its participants, and tells whether the goal was
    /// reached. The goal must be reached or the deadline passed; a challenge
    /// that is not active counts as finalized already.
    pub fn finalize_challenge(&mut self, challenge_id: u32, finalizer: AccountId, now: u64) -> (result:
        Result<bool, SavingsError>)
        ensures
            match old(self).finalize_refusal(challenge_id, finalizer, now) {
                Some(e) => result == Err::<bool, SavingsError>(e) && *final(self) == *old(self),
                None => {
                    let i = choose|i: int| first_challenge(old(self).books@, challenge_id, i);
                    &&& result == Ok::<bool, SavingsError>(
                        old(self).books@[i].challenge.current_amount >= old(self).books@[i].challenge.goal_amount,
                    )
                    &&& *final(self) == (SavingsChallengeContract {
                        books: final(self).books,
                        ..*old(self)
                    })
                    &&& final(self).books@.len() == old(self).books@.len()
                    &&& forall|k: int|
                        0 <= k < old(self).books@.len() && k != i ==> final(self).books@[k] == old(self).books@[k]
                    &&& old(self).books@[i].finalized(&final(self).books@[i])
                },
            },
            old(self).continued_by(final(self)),
            old(self).settled() ==> final(self).settled(),
            old(self).tallied() ==> final(self).tallied(),
            old(self).numbered() ==> final(self).numbered(),
    {
        let i = match find_challenge(&self.books, challenge_id) {
            Some(i) => i,
            None => {
                return Err(SavingsError::ChallengeNotFound);
            },
        };
        match self.books[i].check_finalize(finalizer, now) {
            Some(e) => {
                return Err(e);
            },
            None => {},
        }
        let book = &mut self.books[i];
        book.finalize(finalizer, now)
    }
}

/// A new challenge is settled: it holds nothing, its log is empty, and it
/// keeps statistics of no contributions for everybody, so its amount is the
/// sum of its log and its statistics agree with the log.
pub proof fn lemma_new_challenge_settled(book: &ChallengeBook, participants: Seq<AccountId>)
    requires
        book.challenge.current_amount == 0,
        book.contributions@.len() == 0,
        book.stats@ == zeroed(participants),
    ensures
        book.settled(),
        book.tallied(),
        forall|who: AccountId| #[trigger] book.stats_of(who) == no_stats(),
{
    assert forall|who: AccountId| #[trigger] book.tallied_for(who) by {}
}

/// A challenge is created where its parameters are valid and the deadline and
/// the next identifier can be held.
pub proof fn lemma_creation_accepted(
    contract: &SavingsChallengeContract,
    name: Seq<char>,
    goal_amount: i128,
    weekly_amount: i128,
    participants: Seq<AccountId>,
    duration_weeks: u32,
    now: u64,
)
    requires
        goal_amount > 0,
        weekly_amount > 0,
        1 <= duration_weeks <= 104,
        participants.len() > 0,
        byte_length(name) >= 3,
        now + duration_weeks * 604800 <= u64::MAX,
        contract.next_challenge_id < u32::MAX,
    ensures
        contract.create_refusal(
            name,
            goal_amount,
            weekly_amount,
            participants,
            duration_weeks,
            now,
        ) is None,
{
}

/// Finalizing succeeds once: after `finalize_challenge` has succeeded on a
/// challenge, the challenge is not active, and a second call by anyone who may
/// finalize it is refused as already finalized, whenever it is made.
pub proof fn lemma_finalize_twice(
    before: &SavingsChallengeContract,
    after: &SavingsChallengeContract,
    challenge_id: u32,
    first: AccountId,
    at: u64,
    second: AccountId,
    later: u64,
)
    requires
        before.finalize_refusal(challenge_id, first, at) is None,
        after.books@.len() == before.books@.len(),
        forall|k: int|
            0 <= k < before.books@.len() && k != (choose|i: int|
                first_challenge(before.books@, challenge_id, i)) ==> after.books@[k]
                == before.books@[k],
        before.books@[choose|i: int| first_challenge(before.books@, challenge_id, i)].finalized(
            &after.books@[choose|i: int| first_challenge(before.books@, challenge_id, i)],
        ),
        before.finalize_refusal(challenge_id, second, later) != Some(SavingsError::NotAuthorized),
    ensures
        after.finalize_refusal(challenge_id, second, later) == Some(SavingsError::AlreadyFinalized),
{
    let i = choose|i: int| first_challenge(before.books@, challenge_id, i);
    assert(has_challenge(before.books@, challenge_id));
    let w = choose|w: int|
        0 <= w < before.books@.len() && before.books@[w].challenge.id == challenge_id;
    lemma_has_first_challenge(before.books@, challenge_id, w);
    assert(first_challenge(before.books@, challenge_id, i));
    assert(after.books@[i].challenge.id == challenge_id);
    assert forall|j: int| 0 <= j < i implies after.books@[j].challenge.id != challenge_id by {
        assert(after.books@[j] == before.books@[j]);
    }
    assert(first_challenge(after.books@, challenge_id, i));
    let c = choose|c: int| first_challenge(after.books@, challenge_id, c);
    lemma_first_challenge_unique(after.books@, challenge_id, i, c);
}

/// Where a challenge is among the books, a first book of it is.
pub proof fn lemma_has_first_challenge(books: Seq<ChallengeBook>, id: u32, w: int)
    requires
        0 <= w < books.len(),
        books[w].challenge.id == id,
    ensures
        exists|c: int| first_challenge(books, id, c),
    decreases w,
{
    if forall|j: int| 0 <= j < w ==> books[j].challenge.id != id {
        assert(first_challenge(books, id, w));
    } else {
        let j = choose|j: int| 0 <= j < w && books[j].challenge.id == id;
        lemma_has_first_challenge(books, id, j);
    }
}

/// The amount that a challenge expects to hold after `weeks` weeks: the weekly
/// amount for each week, and no more than the goal.
pub open spec fn expected_amount(weeks: int, weekly_amount: int, goal_amount: int) -> int {
    if weeks * weekly_amount <= goal_amount {
        weeks * weekly_amount
    } else {
        goal_amount
    }
}

/// The mean of `count` contributions that sum to `total`, rounded toward zero;
/// zero where there are none.
pub open spec fn average_contribution(total: int, count: int) -> int {
    if count > 0 {
        trunc_div(total, count)
    } else {
        0
    }
}

impl SavingsChallengeContract {
    /// The challenge with the identifier `challenge_id`.
    pub fn get_challenge(&self, challenge_id: u32) -> (result: Result<&SavingsChallenge, SavingsError>)
        ensures
            match result {
                Ok(challenge) => exists|i: int|
                    first_challenge(self.books@, challenge_id, i) && *challenge
                        == self.books@[i].challenge,
                Err(e) => e == SavingsError::ChallengeNotFound && !has_challenge(
                    self.books@,
                    challenge_id,
                ),
            },
    {
        match find_challenge(&self.books, challenge_id) {
            Some(i) => Ok(&self.books[i].challenge),
            None => Err(SavingsError::ChallengeNotFound),
        }
    }

    /// The contributions logged for the challenge `challenge_id`, oldest first.
    pub fn get_contributions(&self, challenge_id: u32) -> (result: Result<
        &Vec<Contribution>,
        SavingsError,
    >)
        ensures
            match result {
                Ok(contributions) => exists|i: int|
                    first_challenge(self.books@, challenge_id, i) && *contributions
                        == self.books@[i].contributions,
                Err(e) => e == SavingsError::ChallengeNotFound && !has_challenge(
                    self.books@,
                    challenge_id,
                ),
            },
    {
        match find_challenge(&self.books, challenge_id) {
            Some(i) => Ok(&self.books[i].contributions),
            None => Err(SavingsError::ChallengeNotFound),
        }
    }

    /// The statistics of `participant` in the challenge `challenge_id`; those of
    /// no contributions for someone of whom none are kept.
    pub fn get_participant_stats(&self, challenge_id: u32, participant: AccountId) -> (result: Result<
        ParticipantStats,
        SavingsError,
    >)
        ensures
            result == (if has_challenge(self.books@, challenge_id) {
                Ok::<ParticipantStats, SavingsError>(
                    self.books@[choose|i: int|
                        first_challenge(self.books@, challenge_id, i)].stats_of(participant),
                )
            } else {
                Err::<ParticipantStats, SavingsError>(SavingsError::ChallengeNotFound)
            }),
    {
        match find_challenge(&self.books, challenge_id) {
            Some(i) => {
                match self.books[i].stats.get(participant) {
                    Some(stats) => Ok(stats),
                    None => Ok(ParticipantStats::zero()),
                }
            },
            None => Err(SavingsError::ChallengeNotFound),
        }
    }

    /// The identifiers of the challenges in which `user` takes part, oldest first.
    pub fn get_user_challenges(&self, user: AccountId) -> (ids: Vec<u32>)
        ensures
            ids@ == challenges_of(self.books@, user),
    {
        let mut ids: Vec<u32> = Vec::new();
        let mut k: usize = 0;
        while k < self.books.len()
            invariant
                k <= self.books.len(),
                ids@ == challenges_of(self.books@.take(k as int), user),
            decreases self.books.len() - k,
        {
            assert(self.books@.take(k as int + 1).drop_last() =~= self.books@.take(k as int));
            assert(self.books@.take(k as int + 1).last() == self.books@[k as int]);
            if is_member(&self.books[k].challenge.participants, user) {
                ids.push(self.books[k].challenge.id);
            }
            k += 1;
        }
        assert(self.books@.take(k as int) =~= self.books@);
        ids
    }

    /// The progress of the challenge `challenge_id` at `now`: the amount saved,
    /// the goal, the whole weeks since its creation, and whether the deadline
    /// has passed.
    pub fn get_challenge_progress(&self, challenge_id: u32, now: u64) -> (result: Result<
        (i128, i128, u32, bool),
        SavingsError,
    >)
        ensures
            !has_challenge(self.books@, challenge_id) ==> result == Err::<
                (i128, i128, u32, bool),
                SavingsError,
            >(SavingsError::ChallengeNotFound),
            has_challenge(self.books@, challenge_id) ==> ({
                let challenge = self.books@[choose|i: int|
                    first_challenge(self.books@, challenge_id, i)].challenge;
                let weeks = weeks_between(challenge.created_at, now);
                if weeks <= u32::MAX {
                    result == Ok::<(i128, i128, u32, bool), SavingsError>(
                        (
                            challenge.current_amount,
                            challenge.goal_amount,
                            weeks as u32,
                            now > challenge.deadline,
                        ),
                    )
                } else {
                    result == Err::<(i128, i128, u32, bool), SavingsError>(
                        SavingsError::ArithmeticError,
                    )
                }
            }),
    {
        let i = match find_challenge(&self.books, challenge_id) {
            Some(i) => i,
            None => {
                return Err(SavingsError::ChallengeNotFound);
            },
        };
        let challenge = &self.books[i].challenge;
        let weeks = weeks_elapsed(challenge.created_at, now);
        if weeks > 4294967295 {
            return Err(SavingsError::ArithmeticError);
        }
        Ok((challenge.current_amount, challenge.goal_amount, weeks as u32, now > challenge.deadline))
    }

    /// Whether `user` takes part in the challenge `challenge_id`.
    pub fn is_participant(&self, challenge_id: u32, user: AccountId) -> (result: Result<
        bool,
        SavingsError,
    >)
        ensures
            result == (if has_challenge(self.books@, challenge_id) {
                Ok::<bool, SavingsError>(
                    self.books@[choose|i: int|
                        first_challenge(
                            self.books@,
                            challenge_id,
                            i,
                        )].challenge.participants@.contains(user),
                )
            } else {
                Err::<bool, SavingsError>(SavingsError::ChallengeNotFound)
            }),
    {
        match find_challenge(&self.books, challenge_id) {
            Some(i) => Ok(is_member(&self.books[i].challenge.participants, user)),
            None => Err(SavingsError::ChallengeNotFound),
        }
    }

    /// Why the administrator's switch of a challenge is refused, if it is.
    pub open spec fn switch_refusal(&self, challenge_id: u32, active: bool, admin: AccountId)
        -> Option<SavingsError> {
        if admin != self.admin {
            Some(SavingsError::NotAuthorized)
        } else if !has_challenge(self.books@, challenge_id) {
            Some(SavingsError::ChallengeNotFound)
        } else if active && !self.books@[choose|i: int|
            first_challenge(self.books@, challenge_id, i)].challenge.is_active {
            Some(SavingsError::AlreadyFinalized)
        } else {
            None
        }
    }

    /// Stops the challenge `challenge_id` where `active` is unset, and leaves
    /// an active challenge as it is where `active` is set. Only the
    /// administrator may do so. A challenge that is not active is finalized
    /// and stays so: to ask for its resumption is refused.
    pub fn set_challenge_active(&mut self, challenge_id: u32, active: bool, admin: AccountId) -> (result:
        Result<(), SavingsError>)
        ensures
            match old(self).switch_refusal(challenge_id, active, admin) {
                Some(e) => result == Err::<(), SavingsError>(e) && *final(self) == *old(self),
                None => {
                    let i = choose|i: int| first_challenge(old(self).books@, challenge_id, i);
                    &&& result is Ok
                    &&& *final(self) == (SavingsChallengeContract {
                        books: final(self).books,
                        ..*old(self)
                    })
                    &&& final(self).books@.len() == old(self).books@.len()
                    &&& forall|k: int|
                        0 <= k < old(self).books@.len() && k != i ==> final(self).books@[k] == old(self).books@[k]
                    &&& final(self).books@[i] == (ChallengeBook {
                        challenge: SavingsChallenge {
                            is_active: active,
                            ..old(self).books@[i].challenge
                        },
                        ..old(self).books@[i]
                    })
                },
            },
            old(self).continued_by(final(self)),
            old(self).settled() ==> final(self).settled(),
            old(self).tallied() ==> final(self).tallied(),
            old(self).numbered() ==> final(self).numbered(),
    {
        if admin != self.admin {
            return Err(SavingsError::NotAuthorized);
        }
        let i = match find_challenge(&self.books, challenge_id) {
            Some(i) => i,
            None => {
                return Err(SavingsError::ChallengeNotFound);
            },
        };
        if active && !self.books[i].challenge.is_active {
            return Err(SavingsError::AlreadyFinalized);
        }
        let book = &mut self.books[i];
        book.challenge.is_active = active;
        proof {
            let before = old(self).books@[i as int];
            let after = self.books@[i as int];
            if before.tallied() {
                assert forall|who: AccountId| #[trigger] after.tallied_for(who) by {
                    assert(before.tallied_for(who));
                }
            }
        }
        Ok(())
    }

    /// The name and the version of the contract.
    pub fn get_contract_info(&self) -> (info: (String, String))
        ensures
            info.0@ == self.contract_name@,
            info.1@ == self.contract_version@,
    {
        (self.contract_name.clone(), self.contract_version.clone())
    }

    /// The amount that the challenge `challenge_id` expects to hold at `now`:
    /// the weekly amount for each whole week since its creation, and no more
    /// than the goal.
    pub fn get_expected_amount(&self, challenge_id: u32, now: u64) -> (result: Result<
        i128,
        SavingsError,
    >)
        ensures
            !has_challenge(self.books@, challenge_id) ==> result == Err::<i128, SavingsError>(
                SavingsError::ChallengeNotFound,
            ),
            has_challenge(self.books@, challenge_id) ==> ({
                let challenge = self.books@[choose|i: int|
                    first_challenge(self.books@, challenge_id, i)].challenge;
                let weeks = weeks_between(challenge.created_at, now);
                if fits_i128(weeks * challenge.weekly_amount) {
                    result == Ok::<i128, SavingsError>(
                        expected_amount(
                            weeks,
                            challenge.weekly_amount as int,
                            challenge.goal_amount as int,
                        ) as i128,
                    )
                } else {
                    result == Err::<i128, SavingsError>(SavingsError::ArithmeticError)
                }
            }),
    {
        let i = match find_challenge(&self.books, challenge_id) {
            Some(i) => i,
            None => {
                return Err(SavingsError::ChallengeNotFound);
            },
        };
        let challenge = &self.books[i].challenge;
        let weeks = weeks_elapsed(challenge.created_at, now);
        match (weeks as i128).checked_mul(challenge.weekly_amount) {
            Some(expected) => {
                if expected <= challenge.goal_amount {
                    Ok(expected)
                } else {
                    Ok(challenge.goal_amount)
                }
            },
            None => Err(SavingsError::ArithmeticError),
        }
    }

    /// The statistics of the challenge `challenge_id`: the number of its
    /// participants, the amount saved, the mean contribution and the number of
    /// contributions.
    pub fn get_challenge_stats(&self, challenge_id: u32) -> (result: Result<
        (u32, i128, i128, u32),
        SavingsError,
    >)
        ensures
            !has_challenge(self.books@, challenge_id) ==> result == Err::<
                (u32, i128, i128, u32),
                SavingsError,
            >(SavingsError::ChallengeNotFound),
            has_challenge(self.books@, challenge_id) ==> ({
                let book = self.books@[choose|i: int|
                    first_challenge(self.books@, challenge_id, i)];
                let members = book.challenge.participants@.len();
                let count = book.contributions@.len();
                if members <= u32::MAX && count <= u32::MAX {
                    result == Ok::<(u32, i128, i128, u32), SavingsError>(
                        (
                            members as u32,
                            book.challenge.current_amount,
                            average_contribution(
                                book.challenge.current_amount as int,
                                count as int,
                            ) as i128,
                            count as u32,
                        ),
                    )
                } else {
                    result == Err::<(u32, i128, i128, u32), SavingsError>(
                        SavingsError::ArithmeticError,
                    )
                }
            }),
    {
        let i = match find_challenge(&self.books, challenge_id) {
            Some(i) => i,
            None => {
                return Err(SavingsError::ChallengeNotFound);
            },
        };
        let book = &self.books[i];
        let members = book.challenge.participants.len();
        let count = book.contributions.len();
        if members > 4294967295 || count > 4294967295 {
            return Err(SavingsError::ArithmeticError);
        }
        let average = if count > 0 {
            div_toward_zero(book.challenge.current_amount, count as i128)
        } else {
            0
        };
        Ok((members as u32, book.challenge.current_amount, average, count as u32))
    }
}

} // verus!
