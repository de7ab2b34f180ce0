//! Yield pools: the pool and position ledger, deposits, and the proportional
//! distribution of yield among the participants of a pool.

use vstd::prelude::*;
use crate::account::{AccountId, is_member};
use crate::arith::{fits_i128, floor_div};

verus! {

/// Why an operation on the yield pools was refused.
#[derive(Clone, Copy, Debug, PartialEq, Eq, Structural)]
pub enum YieldError {
    NotAuthorized,
    PoolNotFound,
    InsufficientBalance,
    PositionLocked,
    InvalidAmount,
    UnsupportedCorridor,
    ExchangeRateNotFound,
    TransactionNotFound,
    PoolInactive,
    MinDepositNotMet,
    MaxDepositExceeded,
    /// A division by a denominator that is not positive, or a result that
    /// cannot be held in the integer type of its field.
    ArithmeticError,
}

impl YieldError {
    /// The number under which the error is reported.
    pub fn code(&self) -> (code: u32)
        ensures
            code == match *self {
                YieldError::NotAuthorized => 1u32,
                YieldError::PoolNotFound => 2u32,
                YieldError::InsufficientBalance => 3u32,
                YieldError::PositionLocked => 4u32,
                YieldError::InvalidAmount => 5u32,
                YieldError::UnsupportedCorridor => 6u32,
                YieldError::ExchangeRateNotFound => 7u32,
                YieldError::TransactionNotFound => 8u32,
                YieldError::PoolInactive => 9u32,
                YieldError::MinDepositNotMet => 10u32,
                YieldError::MaxDepositExceeded => 11u32,
                YieldError::ArithmeticError => 12u32,
            },
    {
        match self {
            YieldError::NotAuthorized => 1,
            YieldError::PoolNotFound => 2,
            YieldError::InsufficientBalance => 3,
            YieldError::PositionLocked => 4,
            YieldError::InvalidAmount => 5,
            YieldError::UnsupportedCorridor => 6,
            YieldError::ExchangeRateNotFound => 7,
            YieldError::TransactionNotFound => 8,
            YieldError::PoolInactive => 9,
            YieldError::MinDepositNotMet => 10,
            YieldError::MaxDepositExceeded => 11,
            YieldError::ArithmeticError => 12,
        }
    }
}

/// A shared deposit vehicle that accrues yield for its participants.
pub struct YieldPool {
    pub id: u32,
    pub name: String,
    pub base_currency: String,
    pub target_currency: String,
    pub corridor: String,
    pub total_deposited: i128,
    pub total_yield_earned: i128,
    pub apy_basis_points: u32,
    pub participants: Vec<AccountId>,
    pub is_active: bool,
    pub min_deposit: i128,
    pub max_deposit: i128,
    pub lock_duration: u64,
    pub moneygram_corridor_id: String,
}

/// One participant's stake in one pool.
#[derive(Clone, Copy, Debug, PartialEq, Eq, Structural)]
pub struct YieldPosition {
    pub user: AccountId,
    pub pool_id: u32,
    pub principal: i128,
    pub yield_earned: i128,
    pub deposit_timestamp: u64,
    pub last_claim_timestamp: u64,
    pub lock_until: u64,
    pub auto_compound: bool,
}

/// What a distribution of yield gives a ledger: the positions after payment and
/// the pool's new totals.
pub struct Payout {
    pub positions: Vec<YieldPosition>,
    pub total_deposited: i128,
    pub total_yield_earned: i128,
}

/// A pool together with the positions that its participants hold in it.
pub struct PoolLedger {
    pub pool: YieldPool,
    pub positions: Vec<YieldPosition>,
}

/// The sum of the principals of `positions`.
pub open spec fn principal_sum(positions: Seq<YieldPosition>) -> int
    decreases positions.len(),
{
    if positions.len() == 0 {
        0
    } else {
        principal_sum(positions.drop_last()) + positions.last().principal
    }
}

/// `i` is the first position in `positions` that `user` holds.
pub open spec fn first_position(positions: Seq<YieldPosition>, user: AccountId, i: int) -> bool {
    &&& 0 <= i < positions.len()
    &&& positions[i].user == user
    &&& forall|j: int| 0 <= j < i ==> positions[j].user != user
}

/// `user` holds a position among `positions`.
pub open spec fn holds_position(positions: Seq<YieldPosition>, user: AccountId) -> bool {
    exists|i: int| 0 <= i < positions.len() && positions[i].user == user
}

/// The position that a first deposit opens.
pub open spec fn opened(
    user: AccountId,
    pool_id: u32,
    amount: i128,
    now: u64,
    lock_until: u64,
    auto_compound: bool,
) -> YieldPosition {
    YieldPosition {
        user,
        pool_id,
        principal: amount,
        yield_earned: 0,
        deposit_timestamp: now,
        last_claim_timestamp: now,
        lock_until,
        auto_compound,
    }
}

/// The position `p` after a further deposit of `amount`.
pub open spec fn extended(p: YieldPosition, amount: i128, lock_until: u64, auto_compound: bool)
    -> YieldPosition {
    YieldPosition { principal: (p.principal + amount) as i128, lock_until, auto_compound, ..p }
}

/// Adding a position adds its principal to the sum.
pub proof fn lemma_sum_push(positions: Seq<YieldPosition>, p: YieldPosition)
    ensures
        principal_sum(positions.push(p)) == principal_sum(positions) + p.principal,
{
    assert(positions.push(p).drop_last() =~= positions);
}

/// Replacing a position changes the sum by the difference of the principals.
pub proof fn lemma_sum_update(positions: Seq<YieldPosition>, i: int, p: YieldPosition)
    requires
        0 <= i < positions.len(),
    ensures
        principal_sum(positions.update(i, p)) == principal_sum(positions) - positions[i].principal
            + p.principal,
    decreases positions.len(),
{
    if i == positions.len() - 1 {
        assert(positions.update(i, p).drop_last() =~= positions.drop_last());
    } else {
        lemma_sum_update(positions.drop_last(), i, p);
        assert(positions.update(i, p).drop_last() =~= positions.drop_last().update(i, p));
    }
}

/// The place of the first position that `user` holds.
pub fn find_position(positions: &Vec<YieldPosition>, user: AccountId) -> (found: Option<usize>)
    ensures
        match found {
            Some(i) => first_position(positions@, user, i as int),
            None => !holds_position(positions@, user),
        },
{
    let mut i: usize = 0;
    while i < positions.len()
        invariant
            i <= positions.len(),
            forall|j: int| 0 <= j < i ==> positions[j].user != user,
        decreases positions.len() - i,
    {
        if positions[i].user == user {
            return Some(i);
        }
        i += 1;
    }
    None
}

impl PoolLedger {
    /// The pool's total equals the sum of the principals held in it.
    pub open spec fn reconciled(&self) -> bool {
        self.pool.total_deposited == principal_sum(self.positions@)
    }

    /// The positions are those of the participants, one each and in the same order.
    pub open spec fn aligned(&self) -> bool {
        &&& self.positions@.len() == self.pool.participants@.len()
        &&& self.pool.participants@.no_duplicates()
        &&& forall|j: int|
            0 <= j < self.positions@.len() ==> {
                &&& (#[trigger] self.positions@[j]).user == self.pool.participants@[j]
                &&& self.positions@[j].pool_id == self.pool.id
            }
    }

    /// `after` continues this ledger: it is the ledger of the same pool, and
    /// every position is still there, in its place and with its holder.
    pub open spec fn continued_by(&self, after: &PoolLedger) -> bool {
        &&& after.pool.id == self.pool.id
        &&& self.positions@.len() <= after.positions@.len()
        &&& forall|j: int|
            0 <= j < self.positions@.len() ==> {
                &&& (#[trigger] after.positions@[j]).user == self.positions@[j].user
                &&& after.positions@[j].pool_id == self.positions@[j].pool_id
                &&& after.positions@[j].deposit_timestamp == self.positions@[j].deposit_timestamp
            }
    }

    /// Why a deposit of `amount` by `user` at `now` is refused, if it is.
    pub open spec fn deposit_refusal(&self, user: AccountId, amount: i128, now: u64) -> Option<
        YieldError,
    > {
        if !self.pool.is_active {
            Some(YieldError::PoolInactive)
        } else if amount < self.pool.min_deposit {
            Some(YieldError::MinDepositNotMet)
        } else if amount > self.pool.max_deposit {
            Some(YieldError::MaxDepositExceeded)
        } else if now + self.pool.lock_duration > u64::MAX || !fits_i128(
            self.pool.total_deposited + amount,
        ) || (exists|i: int|
            first_position(self.positions@, user, i) && !fits_i128(
                self.positions@[i].principal + amount,
            )) {
            Some(YieldError::ArithmeticError)
        } else {
            None
        }
    }

    /// `after` is this ledger with a deposit of `amount` by `user` at `now` applied:
    /// the user's position opened or grown, the user among the participants, and
    /// the pool's total larger by `amount`.
    pub open spec fn deposited(
        &self,
        after: &PoolLedger,
        user: AccountId,
        amount: i128,
        auto_compound: bool,
        now: u64,
    ) -> bool {
        let lock_until = (now + self.pool.lock_duration) as u64;
        &&& after.pool == (YieldPool {
            total_deposited: (self.pool.total_deposited + amount) as i128,
            participants: after.pool.participants,
            ..self.pool
        })
        &&& after.pool.participants@ == (if self.pool.participants@.contains(user) {
            self.pool.participants@
        } else {
            self.pool.participants@.push(user)
        })
        &&& (forall|i: int|
            first_position(self.positions@, user, i) ==> after.positions@ == self.positions@.update(
                i,
                extended(self.positions@[i], amount, lock_until, auto_compound),
            ))
        &&& (!holds_position(self.positions@, user) ==> after.positions@ == self.positions@.push(
            opened(user, self.pool.id, amount, now, lock_until, auto_compound),
        ))
    }

    /// Decides whether a deposit would be accepted, without making it.
    pub fn check_deposit(&self, user: AccountId, amount: i128, now: u64) -> (refusal: Option<
        YieldError,
    >)
        ensures
            refusal == self.deposit_refusal(user, amount, now),
    {
        if !self.pool.is_active {
            return Some(YieldError::PoolInactive);
        }
        if amount < self.pool.min_deposit {
            return Some(YieldError::MinDepositNotMet);
        }
        if amount > self.pool.max_deposit {
            return Some(YieldError::MaxDepositExceeded);
        }
        if now.checked_add(self.pool.lock_duration).is_none() {
            return Some(YieldError::ArithmeticError);
        }
        if self.pool.total_deposited.checked_add(amount).is_none() {
            return Some(YieldError::ArithmeticError);
        }
        match find_position(&self.positions, user) {
            Some(i) => {
                if self.positions[i].principal.checked_add(amount).is_none() {
                    return Some(YieldError::ArithmeticError);
                }
                assert forall|k: int| first_position(self.positions@, user, k) implies k == i by {
                    if k < i {
                        assert(self.positions@[k].user != user);
                    } else if i < k {
                        assert(self.positions@[i as int].user != user);
                    }
                }
            },
            None => {},
        }
        None
    }

    /// Applies a deposit of `amount` by `user` at the time `now`.
    ///
    /// A first deposit opens the user's position and enters the user among the
    /// participants; a later one adds to the principal of the position, renews
    /// its lock and takes over the compounding choice. Either way the pool's
    /// total grows by `amount`. A refused deposit changes nothing.
    pub fn deposit(&mut self, user: AccountId, amount: i128, auto_compound: bool, now: u64) -> (result:
        Result<(), YieldError>)
        ensures
            match old(self).deposit_refusal(user, amount, now) {
                Some(e) => result == Err::<(), YieldError>(e) && *final(self) == *old(self),
                None => result is Ok && old(self).deposited(
                    final(self),
                    user,
                    amount,
                    auto_compound,
                    now,
                ),
            },
            old(self).continued_by(final(self)),
            old(self).reconciled() ==> final(self).reconciled(),
            old(self).aligned() ==> final(self).aligned(),
    {
        match self.check_deposit(user, amount, now) {
            Some(e) => {
                return Err(e);
            },
            None => {},
        }
        let lock_until: u64 = now + self.pool.lock_duration;
        let ghost before = self.positions@;
        let ghost members = self.pool.participants@;
        match find_position(&self.positions, user) {
            Some(i) => {
                let held = self.positions[i];
                assert(first_position(before, user, i as int));
                let grown = YieldPosition {
                    principal: held.principal + amount,
                    lock_until,
                    auto_compound,
                    ..held
                };
                self.positions.set(i, grown);
                proof {
                    lemma_sum_update(before, i as int, grown);
                    assert forall|k: int| first_position(before, user, k) implies k == i by {
                        if k < i {
                            assert(before[k].user != user);
                        } else if i < k {
                            assert(before[i as int].user != user);
                        }
                    }
                }
            },
            None => {
                let fresh = YieldPosition {
                    user,
                    pool_id: self.pool.id,
                    principal: amount,
                    yield_earned: 0,
                    deposit_timestamp: now,
                    last_claim_timestamp: now,
                    lock_until,
                    auto_compound,
                };
                self.positions.push(fresh);
                proof {
                    lemma_sum_push(before, fresh);
                }
            },
        }
        self.pool.total_deposited = self.pool.total_deposited + amount;
        if !is_member(&self.pool.participants, user) {
            self.pool.participants.push(user);
        }
        proof {
            if old(self).aligned() {
                if holds_position(before, user) {
                    let w = choose|w: int| 0 <= w < before.len() && before[w].user == user;
                    assert(members[w] == user);
                    assert(members.contains(user));
                } else {
                    if members.contains(user) {
                        let w = choose|w: int| 0 <= w < members.len() && members[w] == user;
                        assert(before[w].user == user);
                    }
                    assert(!members.contains(user));
                    assert forall|a: int, b: int|
                        0 <= a < members.push(user).len() && 0 <= b < members.push(user).len() && a
                            != b implies members.push(user)[a] != members.push(user)[b] by {
                        if a == members.len() {
                            assert(members[b] != user);
                        } else if b == members.len() {
                            assert(members[a] != user);
                        }
                    }
                }
            }
        }
        Ok(())
    }
}

/// The share of `total_yield` that falls to `principal` out of `total_deposited`,
/// rounded down.
pub open spec fn share_of(principal: int, total_yield: int, total_deposited: int) -> int {
    (principal * total_yield) / total_deposited
}

/// The total deposited in the pool when the position at `k` is about to be paid:
/// the total at the start, grown by the shares that earlier compounding positions
/// have taken into their principal.
pub open spec fn running_total(
    positions: Seq<YieldPosition>,
    total_deposited: int,
    total_yield: int,
    k: int,
) -> int
    decreases k,
{
    if k <= 0 || k > positions.len() {
        total_deposited
    } else {
        let before = running_total(positions, total_deposited, total_yield, k - 1);
        let p = positions[k - 1];
        if p.auto_compound {
            before + share_of(p.principal as int, total_yield, before)
        } else {
            before
        }
    }
}

/// The sum of the shares paid to the first `k` positions.
pub open spec fn paid_out(
    positions: Seq<YieldPosition>,
    total_deposited: int,
    total_yield: int,
    k: int,
) -> int
    decreases k,
{
    if k <= 0 || k > positions.len() {
        0
    } else {
        paid_out(positions, total_deposited, total_yield, k - 1) + share_of(
            positions[k - 1].principal as int,
            total_yield,
            running_total(positions, total_deposited, total_yield, k - 1),
        )
    }
}

/// Whether the position `p` can be paid its share out of `total_deposited`: the
/// denominator is positive and every value that the payment computes can be held.
pub open spec fn payable(p: YieldPosition, total_yield: int, total_deposited: int) -> bool {
    let share = share_of(p.principal as int, total_yield, total_deposited);
    &&& total_deposited > 0
    &&& fits_i128(p.principal * total_yield)
    &&& fits_i128(p.yield_earned + share)
    &&& p.auto_compound ==> fits_i128(p.principal + share) && fits_i128(total_deposited + share)
}

/// The position `p` after it was paid its share out of `total_deposited`.
pub open spec fn paid(p: YieldPosition, total_yield: int, total_deposited: int) -> YieldPosition {
    let share = share_of(p.principal as int, total_yield, total_deposited);
    YieldPosition {
        yield_earned: (p.yield_earned + share) as i128,
        principal: if p.auto_compound {
            (p.principal + share) as i128
        } else {
            p.principal
        },
        ..p
    }
}

impl PoolLedger {
    /// Whether `total_yield` can be distributed: the pool holds deposits, each
    /// position in turn can be paid, and the pool's yield counter can take the sum.
    pub open spec fn distributable(&self, total_yield: i128) -> bool {
        &&& self.pool.total_deposited > 0
        &&& forall|k: int|
            0 <= k < self.positions@.len() ==> payable(
                #[trigger] self.positions@[k],
                total_yield as int,
                running_total(
                    self.positions@,
                    self.pool.total_deposited as int,
                    total_yield as int,
                    k,
                ),
            )
        &&& fits_i128(self.pool.total_yield_earned + total_yield)
    }

    /// `after` is this ledger with `total_yield` distributed: each position paid
    /// its share in turn, the pool's total grown by the shares that were
    /// compounded, and the yield counter grown by `total_yield`.
    pub open spec fn paid_into(&self, after: &PoolLedger, total_yield: i128) -> bool {
        &&& after.positions@.len() == self.positions@.len()
        &&& forall|k: int|
            0 <= k < self.positions@.len() ==> #[trigger] after.positions@[k] == paid(
                self.positions@[k],
                total_yield as int,
                running_total(
                    self.positions@,
                    self.pool.total_deposited as int,
                    total_yield as int,
                    k,
                ),
            )
        &&& after.pool == (YieldPool {
            total_deposited: running_total(
                self.positions@,
                self.pool.total_deposited as int,
                total_yield as int,
                self.positions@.len() as int,
            ) as i128,
            total_yield_earned: (self.pool.total_yield_earned + total_yield) as i128,
            ..self.pool
        })
    }

    /// `payout` is what a distribution of `total_yield` gives this ledger.
    pub open spec fn pays(&self, payout: &Payout, total_yield: i128) -> bool {
        &&& payout.positions@.len() == self.positions@.len()
        &&& forall|k: int|
            0 <= k < self.positions@.len() ==> #[trigger] payout.positions@[k] == paid(
                self.positions@[k],
                total_yield as int,
                running_total(
                    self.positions@,
                    self.pool.total_deposited as int,
                    total_yield as int,
                    k,
                ),
            )
        &&& payout.total_deposited == running_total(
            self.positions@,
            self.pool.total_deposited as int,
            total_yield as int,
            self.positions@.len() as int,
        )
        &&& payout.total_yield_earned == self.pool.total_yield_earned + total_yield
    }

    /// Computes the distribution of `total_yield` without applying it; `None`
    /// where the yield cannot be distributed.
    pub fn plan_distribution(&self, total_yield: i128) -> (plan: Option<Payout>)
        ensures
            plan is Some == self.distributable(total_yield),
            match plan {
                Some(payout) => {
                    &&& self.pays(&payout, total_yield)
                    &&& principal_sum(payout.positions@) - principal_sum(self.positions@)
                        == payout.total_deposited - self.pool.total_deposited
                },
                None => true,
            },
    {
        if self.pool.total_deposited <= 0 {
            return None;
        }
        let ghost start = self.positions@;
        let ghost total0 = self.pool.total_deposited as int;
        let ghost y = total_yield as int;
        let count = self.positions.len();
        let mut total: i128 = self.pool.total_deposited;
        let mut updated: Vec<YieldPosition> = Vec::new();
        let mut k: usize = 0;
        while k < count
            invariant
                k <= count,
                count == self.positions@.len(),
                self.positions@ == start,
                total0 == self.pool.total_deposited,
                total0 > 0,
                y == total_yield,
                updated@.len() == k,
                total == running_total(start, total0, y, k as int),
                forall|j: int|
                    0 <= j < k ==> payable(start[j], y, running_total(start, total0, y, j)),
                forall|j: int|
                    0 <= j < k ==> #[trigger] updated@[j] == paid(
                        start[j],
                        y,
                        running_total(start, total0, y, j),
                    ),
                principal_sum(updated@) - principal_sum(start.take(k as int)) == total - total0,
            decreases count - k,
        {
            let p = self.positions[k];
            let ghost share = share_of(p.principal as int, y, total as int);
            if total <= 0 {
                assert(!payable(start[k as int], y, running_total(start, total0, y, k as int)));
                return None;
            }
            let product = match p.principal.checked_mul(total_yield) {
                Some(product) => product,
                None => {
                    assert(!payable(start[k as int], y, running_total(start, total0, y, k as int)));
                    return None;
                },
            };
            let user_share = floor_div(product, total);
            assert(user_share == share);
            let earned = match p.yield_earned.checked_add(user_share) {
                Some(earned) => earned,
                None => {
                    assert(!payable(start[k as int], y, running_total(start, total0, y, k as int)));
                    return None;
                },
            };
            let mut principal = p.principal;
            let mut next_total = total;
            if p.auto_compound {
                principal = match p.principal.checked_add(user_share) {
                    Some(principal) => principal,
                    None => {
                        assert(!payable(
                            start[k as int],
                            y,
                            running_total(start, total0, y, k as int),
                        ));
                        return None;
                    },
                };
                next_total = match total.checked_add(user_share) {
                    Some(next_total) => next_total,
                    None => {
                        assert(!payable(
                            start[k as int],
                            y,
                            running_total(start, total0, y, k as int),
                        ));
                        return None;
                    },
                };
            }
            let after = YieldPosition { yield_earned: earned, principal, ..p };
            proof {
                lemma_sum_push(updated@, after);
                lemma_sum_push(start.take(k as int), p);
                assert(start.take(k as int + 1) =~= start.take(k as int).push(p));
                assert(payable(start[k as int], y, running_total(start, total0, y, k as int)));
            }
            updated.push(after);
            total = next_total;
            k += 1;
        }
        let yield_earned = match self.pool.total_yield_earned.checked_add(total_yield) {
            Some(yield_earned) => yield_earned,
            None => {
                return None;
            },
        };
        proof {
            assert(start.take(count as int) =~= start);
            assert(self.distributable(total_yield));
        }
        Some(Payout { positions: updated, total_deposited: total, total_yield_earned: yield_earned })
    }

    /// Puts a computed distribution in place of the positions and totals.
    pub fn settle(&mut self, payout: Payout)
        ensures
            final(self).positions == payout.positions,
            final(self).pool == (YieldPool {
                total_deposited: payout.total_deposited,
                total_yield_earned: payout.total_yield_earned,
                ..old(self).pool
            }),
    {
        self.positions = payout.positions;
        self.pool.total_deposited = payout.total_deposited;
        self.pool.total_yield_earned = payout.total_yield_earned;
    }

    /// A distribution leaves each position with its holder and its pool.
    pub proof fn lemma_paid_keeps_holders(&self, after: &PoolLedger, total_yield: i128)
        requires
            self.paid_into(after, total_yield),
        ensures
            self.aligned() ==> after.aligned(),
    {
        if self.aligned() {
            assert forall|j: int| 0 <= j < after.positions@.len() implies {
                &&& (#[trigger] after.positions@[j]).user == after.pool.participants@[j]
                &&& after.positions@[j].pool_id == after.pool.id
            } by {
                assert(self.positions@[j].user == self.pool.participants@[j]);
            }
        }
    }

    /// Splits `total_yield` among the positions in proportion to their principal.
    ///
    /// Each position in turn earns `principal * total_yield / total_deposited`,
    /// rounded down; what the rounding leaves over is paid to nobody. A
    /// compounding position takes its share into its principal, and the pool's
    /// total with it, so the positions after it are paid out of the larger total.
    /// The pool's yield counter grows by the whole of `total_yield`. Where the
    /// yield cannot be distributed, nothing changes.
    pub fn distribute(&mut self, total_yield: i128) -> (result: Result<(), YieldError>)
        ensures
            old(self).distributable(total_yield) ==> result is Ok && old(self).paid_into(
                final(self),
                total_yield,
            ),
            !old(self).distributable(total_yield) ==> result == Err::<(), YieldError>(
                YieldError::ArithmeticError,
            ) && *final(self) == *old(self),
            old(self).continued_by(final(self)),
            old(self).reconciled() ==> final(self).reconciled(),
            old(self).aligned() ==> final(self).aligned(),
    {
        match self.plan_distribution(total_yield) {
            Some(payout) => {
                self.settle(payout);
                proof {
                    old(self).lemma_paid_keeps_holders(self, total_yield);
                }
                Ok(())
            },
            None => Err(YieldError::ArithmeticError),
        }
    }
}

/// Without compounding positions the pool's total stays what it was while the
/// positions are paid.
pub proof fn lemma_total_stays(
    positions: Seq<YieldPosition>,
    total_deposited: int,
    total_yield: int,
    k: int,
)
    requires
        forall|j: int| 0 <= j < positions.len() ==> !(#[trigger] positions[j]).auto_compound,
    ensures
        running_total(positions, total_deposited, total_yield, k) == total_deposited,
    decreases k,
{
    if 0 < k <= positions.len() {
        lemma_total_stays(positions, total_deposited, total_yield, k - 1);
    }
}

/// Positions of equal principal sum to their number times that principal.
pub proof fn lemma_sum_of_equals(positions: Seq<YieldPosition>, principal: int)
    requires
        forall|j: int| 0 <= j < positions.len() ==> (#[trigger] positions[j]).principal == principal,
    ensures
        principal_sum(positions) == positions.len() * principal,
    decreases positions.len(),
{
    if positions.len() > 0 {
        lemma_sum_of_equals(positions.drop_last(), principal);
        assert(positions.len() * principal == (positions.len() - 1) * principal + principal)
            by (nonlinear_arith);
    }
}

/// One of `n` equal principals earns the `n`th part of the yield, rounded down.
pub proof fn lemma_equal_share(principal: int, total_yield: int, n: int)
    requires
        principal > 0,
        n > 0,
    ensures
        share_of(principal, total_yield, n * principal) == total_yield / n,
{
    let q = total_yield / n;
    let r = total_yield % n;
    vstd::arithmetic::div_mod::lemma_fundamental_div_mod(total_yield, n);
    assert(0 <= r < n) by {
        vstd::arithmetic::div_mod::lemma_mod_bound(total_yield, n);
    }
    assert(principal * total_yield == q * (n * principal) + principal * r) by (nonlinear_arith)
        requires
            total_yield == n * q + r,
    ;
    assert(0 <= principal * r < n * principal) by (nonlinear_arith)
        requires
            0 <= r < n,
            principal > 0,
    ;
    vstd::arithmetic::div_mod::lemma_fundamental_div_mod_converse(
        principal * total_yield,
        n * principal,
        q,
        principal * r,
    );
}

/// The rounding law of an even split: where the `n` positions of a reconciled
/// pool that holds deposits have the same principal and none of them
/// compounds, the shares of a distribution sum to the yield less its remainder
/// on division by `n`. The remainder is paid to nobody.
pub proof fn lemma_even_split_rounding(ledger: &PoolLedger, principal: i128, total_yield: i128)
    requires
        ledger.reconciled(),
        ledger.pool.total_deposited > 0,
        forall|j: int|
            0 <= j < ledger.positions@.len() ==> {
                &&& (#[trigger] ledger.positions@[j]).principal == principal
                &&& !ledger.positions@[j].auto_compound
            },
    ensures
        ledger.positions@.len() > 0,
        paid_out(
            ledger.positions@,
            ledger.pool.total_deposited as int,
            total_yield as int,
            ledger.positions@.len() as int,
        ) == total_yield - (total_yield as int) % (ledger.positions@.len() as int),
{
    let positions = ledger.positions@;
    let n = positions.len() as int;
    let total = ledger.pool.total_deposited as int;
    let y = total_yield as int;
    lemma_sum_of_equals(positions, principal as int);
    assert(n > 0 && principal > 0) by (nonlinear_arith)
        requires
            n >= 0,
            n * principal > 0,
    ;
    lemma_equal_share(principal as int, y, n);
    lemma_even_shares(positions, principal as int, y, n);
    vstd::arithmetic::div_mod::lemma_fundamental_div_mod(y, n);
}

/// The first `k` of `n` equal, non-compounding positions are paid `k` times
/// the `n`th part of the yield.
pub proof fn lemma_even_shares(positions: Seq<YieldPosition>, principal: int, total_yield: int, k: int)
    requires
        principal > 0,
        0 <= k <= positions.len(),
        positions.len() > 0,
        forall|j: int|
            0 <= j < positions.len() ==> {
                &&& (#[trigger] positions[j]).principal == principal
                &&& !positions[j].auto_compound
            },
    ensures
        paid_out(positions, positions.len() * principal, total_yield, k) == k * (total_yield / (
        positions.len() as int)),
    decreases k,
{
    let n = positions.len() as int;
    let each = total_yield / n;
    if k > 0 {
        lemma_even_shares(positions, principal, total_yield, k - 1);
        lemma_total_stays(positions, n * principal, total_yield, k - 1);
        lemma_equal_share(principal, total_yield, n);
        assert(positions[k - 1].principal == principal);
        assert(k * each == (k - 1) * each + each) by (nonlinear_arith);
    } else {
        assert(0 * each == 0);
    }
}

/// The sum of what the rounding down has left of the shares of the first `k`
/// positions, in units of the pool's total.
pub open spec fn remainder_sum(
    positions: Seq<YieldPosition>,
    total_deposited: int,
    total_yield: int,
    k: int,
) -> int
    decreases k,
{
    if k <= 0 || k > positions.len() {
        0
    } else {
        remainder_sum(positions, total_deposited, total_yield, k - 1) + (positions[k
            - 1].principal * total_yield) % total_deposited
    }
}

/// Without compounding, the shares of the first `k` positions and what the
/// rounding has left of them make up the yield on their principals.
pub proof fn lemma_shares_and_remainders(
    positions: Seq<YieldPosition>,
    total_deposited: int,
    total_yield: int,
    k: int,
)
    requires
        total_deposited > 0,
        0 <= k <= positions.len(),
        forall|j: int| 0 <= j < positions.len() ==> !(#[trigger] positions[j]).auto_compound,
    ensures
        total_deposited * paid_out(positions, total_deposited, total_yield, k) + remainder_sum(
            positions,
            total_deposited,
            total_yield,
            k,
        ) == total_yield * principal_sum(positions.take(k)),
        0 <= remainder_sum(positions, total_deposited, total_yield, k) <= k * (total_deposited - 1),
    decreases k,
{
    if k == 0 {
        assert(positions.take(0).len() == 0);
        assert(0 * (total_deposited - 1) == 0);
    } else {
        lemma_shares_and_remainders(positions, total_deposited, total_yield, k - 1);
        lemma_total_stays(positions, total_deposited, total_yield, k - 1);
        assert(positions.take(k).drop_last() =~= positions.take(k - 1));
        assert(positions.take(k).last() == positions[k - 1]);
        let p = positions[k - 1].principal as int;
        let x = p * total_yield;
        let q = x / total_deposited;
        let r = x % total_deposited;
        vstd::arithmetic::div_mod::lemma_fundamental_div_mod(x, total_deposited);
        vstd::arithmetic::div_mod::lemma_mod_bound(x, total_deposited);
        let paid_before = paid_out(positions, total_deposited, total_yield, k - 1);
        let rest_before = remainder_sum(positions, total_deposited, total_yield, k - 1);
        let sum_before = principal_sum(positions.take(k - 1));
        assert(share_of(p, total_yield, total_deposited) == q);
        assert(total_deposited * (paid_before + q) + (rest_before + r) == total_yield * (sum_before
            + p)) by (nonlinear_arith)
            requires
                total_deposited * paid_before + rest_before == total_yield * sum_before,
                x == total_deposited * q + r,
                x == p * total_yield,
        ;
        assert(rest_before + r <= k * (total_deposited - 1)) by (nonlinear_arith)
            requires
                rest_before <= (k - 1) * (total_deposited - 1),
                r <= total_deposited - 1,
        ;
    }
}

/// The rounding loss of a distribution: in a reconciled pool without
/// compounding positions, the shares sum to no more than the yield, and fall
/// short of it by less than the number of positions.
pub proof fn lemma_rounding_loss(ledger: &PoolLedger, total_yield: i128)
    requires
        ledger.reconciled(),
        ledger.pool.total_deposited > 0,
        forall|j: int|
            0 <= j < ledger.positions@.len() ==> !(#[trigger] ledger.positions@[j]).auto_compound,
    ensures
        ledger.positions@.len() > 0,
        0 <= total_yield - paid_out(
            ledger.positions@,
            ledger.pool.total_deposited as int,
            total_yield as int,
            ledger.positions@.len() as int,
        ) <= ledger.positions@.len() - 1,
{
    let positions = ledger.positions@;
    let n = positions.len() as int;
    let total = ledger.pool.total_deposited as int;
    let y = total_yield as int;
    let paid = paid_out(positions, total, y, n);
    let rest = remainder_sum(positions, total, y, n);
    lemma_shares_and_remainders(positions, total, y, n);
    assert(positions.take(n) =~= positions);
    assert(n > 0);
    assert(0 <= y - paid <= n - 1) by (nonlinear_arith)
        requires
            total > 0,
            n > 0,
            total * paid + rest == y * total,
            0 <= rest <= n * (total - 1),
    ;
}

/// The sum of the yield that the `positions` have earned.
pub open spec fn yield_sum(positions: Seq<YieldPosition>) -> int
    decreases positions.len(),
{
    if positions.len() == 0 {
        0
    } else {
        yield_sum(positions.drop_last()) + positions.last().yield_earned
    }
}

/// What a distribution pays out is what the positions earn by it: the yield
/// earned by all positions grows by the sum of the shares.
pub proof fn lemma_paid_out_is_earned(before: &PoolLedger, after: &PoolLedger, total_yield: i128)
    requires
        before.distributable(total_yield),
        before.paid_into(after, total_yield),
    ensures
        yield_sum(after.positions@) - yield_sum(before.positions@) == paid_out(
            before.positions@,
            before.pool.total_deposited as int,
            total_yield as int,
            before.positions@.len() as int,
        ),
{
    lemma_earned_so_far(before, after, total_yield, before.positions@.len() as int);
    assert(before.positions@.take(before.positions@.len() as int) =~= before.positions@);
    assert(after.positions@.take(before.positions@.len() as int) =~= after.positions@);
}

/// The first `k` positions earn the sum of their shares by a distribution.
pub proof fn lemma_earned_so_far(before: &PoolLedger, after: &PoolLedger, total_yield: i128, k: int)
    requires
        before.distributable(total_yield),
        before.paid_into(after, total_yield),
        0 <= k <= before.positions@.len(),
    ensures
        yield_sum(after.positions@.take(k)) - yield_sum(before.positions@.take(k)) == paid_out(
            before.positions@,
            before.pool.total_deposited as int,
            total_yield as int,
            k,
        ),
    decreases k,
{
    if k > 0 {
        lemma_earned_so_far(before, after, total_yield, k - 1);
        assert(before.positions@.take(k).drop_last() =~= before.positions@.take(k - 1));
        assert(after.positions@.take(k).drop_last() =~= after.positions@.take(k - 1));
        assert(before.positions@.take(k).last() == before.positions@[k - 1]);
        assert(after.positions@.take(k).last() == after.positions@[k - 1]);
        assert(payable(
            before.positions@[k - 1],
            total_yield as int,
            running_total(
                before.positions@,
                before.pool.total_deposited as int,
                total_yield as int,
                k - 1,
            ),
        ));
    } else {
        assert(before.positions@.take(0).len() == 0);
        assert(after.positions@.take(0).len() == 0);
    }
}

/// The sum of the shares that the compounding positions among the first `k`
/// take into their principal.
pub open spec fn compounded(
    positions: Seq<YieldPosition>,
    total_deposited: int,
    total_yield: int,
    k: int,
) -> int
    decreases k,
{
    if k <= 0 || k > positions.len() {
        0
    } else {
        compounded(positions, total_deposited, total_yield, k - 1) + (if positions[k
            - 1].auto_compound {
            share_of(
                positions[k - 1].principal as int,
                total_yield,
                running_total(positions, total_deposited, total_yield, k - 1),
            )
        } else {
            0
        })
    }
}

/// While the positions are paid, the pool's total is what it was at the start
/// and the shares that were compounded so far.
pub proof fn lemma_total_grows_by_compounding(
    positions: Seq<YieldPosition>,
    total_deposited: int,
    total_yield: int,
    k: int,
)
    requires
        0 <= k <= positions.len(),
    ensures
        running_total(positions, total_deposited, total_yield, k) == total_deposited + compounded(
            positions,
            total_deposited,
            total_yield,
            k,
        ),
    decreases k,
{
    if k > 0 {
        lemma_total_grows_by_compounding(positions, total_deposited, total_yield, k - 1);
    }
}

/// By a distribution the principals of the first `k` positions grow by what
/// the pool's total has grown when they are paid.
pub proof fn lemma_principal_so_far(before: &PoolLedger, after: &PoolLedger, total_yield: i128, k: int)
    requires
        before.distributable(total_yield),
        before.paid_into(after, total_yield),
        0 <= k <= before.positions@.len(),
    ensures
        principal_sum(after.positions@.take(k)) - principal_sum(before.positions@.take(k))
            == running_total(
            before.positions@,
            before.pool.total_deposited as int,
            total_yield as int,
            k,
        ) - before.pool.total_deposited,
    decreases k,
{
    if k > 0 {
        lemma_principal_so_far(before, after, total_yield, k - 1);
        assert(before.positions@.take(k).drop_last() =~= before.positions@.take(k - 1));
        assert(after.positions@.take(k).drop_last() =~= after.positions@.take(k - 1));
        assert(before.positions@.take(k).last() == before.positions@[k - 1]);
        assert(after.positions@.take(k).last() == after.positions@[k - 1]);
        assert(payable(
            before.positions@[k - 1],
            total_yield as int,
            running_total(
                before.positions@,
                before.pool.total_deposited as int,
                total_yield as int,
                k - 1,
            ),
        ));
    } else {
        assert(before.positions@.take(0).len() == 0);
        assert(after.positions@.take(0).len() == 0);
    }
}

/// A distribution keeps the pool reconciled: whatever mix of compounding and
/// other positions the pool holds, the principals and the pool's total grow
/// alike, by the sum of the shares that the compounding positions take, so a
/// total that was the sum of the principals before is so after.
pub proof fn lemma_distribution_reconciles(before: &PoolLedger, after: &PoolLedger, total_yield: i128)
    requires
        before.distributable(total_yield),
        before.paid_into(after, total_yield),
    ensures
        after.pool.total_deposited - before.pool.total_deposited == compounded(
            before.positions@,
            before.pool.total_deposited as int,
            total_yield as int,
            before.positions@.len() as int,
        ),
        principal_sum(after.positions@) - principal_sum(before.positions@)
            == after.pool.total_deposited - before.pool.total_deposited,
        after.pool.total_yield_earned == before.pool.total_yield_earned + total_yield,
        before.reconciled() ==> after.reconciled(),
{
    let n = before.positions@.len() as int;
    lemma_principal_so_far(before, after, total_yield, n);
    lemma_total_grows_by_compounding(
        before.positions@,
        before.pool.total_deposited as int,
        total_yield as int,
        n,
    );
    assert(before.positions@.take(n) =~= before.positions@);
    assert(after.positions@.take(n) =~= after.positions@);
    lemma_running_total_fits(before, total_yield, n);
}

/// Where a yield can be distributed, the pool's total can be held at every
/// step of the distribution.
pub proof fn lemma_running_total_fits(before: &PoolLedger, total_yield: i128, k: int)
    requires
        before.distributable(total_yield),
        0 <= k <= before.positions@.len(),
    ensures
        fits_i128(
            running_total(
                before.positions@,
                before.pool.total_deposited as int,
                total_yield as int,
                k,
            ),
        ),
    decreases k,
{
    if k > 0 {
        lemma_running_total_fits(before, total_yield, k - 1);
        assert(payable(
            before.positions@[k - 1],
            total_yield as int,
            running_total(
                before.positions@,
                before.pool.total_deposited as int,
                total_yield as int,
                k - 1,
            ),
        ));
    }
}

/// Where `user` holds a position, a first one is held.
pub proof fn lemma_holds_first(positions: Seq<YieldPosition>, user: AccountId, w: int)
    requires
        0 <= w < positions.len(),
        positions[w].user == user,
    ensures
        exists|i: int| first_position(positions, user, i),
    decreases w,
{
    if forall|j: int| 0 <= j < w ==> positions[j].user != user {
        assert(first_position(positions, user, w));
    } else {
        let j = choose|j: int| 0 <= j < w && positions[j].user == user;
        lemma_holds_first(positions, user, j);
    }
}

/// A deposit keeps the pool reconciled: the principals and the pool's total
/// both grow by the amount deposited, so a total that was the sum of the
/// principals before is so after.
pub proof fn lemma_deposit_reconciles(
    before: &PoolLedger,
    after: &PoolLedger,
    user: AccountId,
    amount: i128,
    auto_compound: bool,
    now: u64,
)
    requires
        before.deposit_refusal(user, amount, now) is None,
        before.deposited(after, user, amount, auto_compound, now),
    ensures
        after.pool.total_deposited == before.pool.total_deposited + amount,
        principal_sum(after.positions@) == principal_sum(before.positions@) + amount,
        before.reconciled() ==> after.reconciled(),
{
    let lock_until = (now + before.pool.lock_duration) as u64;
    if holds_position(before.positions@, user) {
        let w = choose|w: int| 0 <= w < before.positions@.len() && before.positions@[w].user == user;
        lemma_holds_first(before.positions@, user, w);
        let i = choose|i: int| first_position(before.positions@, user, i);
        lemma_sum_update(
            before.positions@,
            i,
            extended(before.positions@[i], amount, lock_until, auto_compound),
        );
    } else {
        lemma_sum_push(
            before.positions@,
            opened(user, before.pool.id, amount, now, lock_until, auto_compound),
        );
    }
}

/// The even split, position by position: where the `n` positions of a
/// reconciled pool have the same principal and none of them compounds, a
/// distribution pays each of them the `n`th part of the yield, rounded down,
/// and leaves every principal and the pool's total as they were; together the
/// positions earn the yield less its remainder on division by `n`.
pub proof fn lemma_even_split(before: &PoolLedger, after: &PoolLedger, principal: i128, total_yield: i128)
    requires
        before.reconciled(),
        before.distributable(total_yield),
        before.paid_into(after, total_yield),
        forall|j: int|
            0 <= j < before.positions@.len() ==> {
                &&& (#[trigger] before.positions@[j]).principal == principal
                &&& !before.positions@[j].auto_compound
            },
    ensures
        before.positions@.len() > 0,
        forall|k: int|
            0 <= k < before.positions@.len() ==> {
                &&& (#[trigger] after.positions@[k]).yield_earned == before.positions@[k].yield_earned
                    + (total_yield as int) / (before.positions@.len() as int)
                &&& after.positions@[k].principal == before.positions@[k].principal
            },
        after.pool.total_deposited == before.pool.total_deposited,
        yield_sum(after.positions@) - yield_sum(before.positions@) == total_yield - (
        total_yield as int) % (before.positions@.len() as int),
{
    let positions = before.positions@;
    let n = positions.len() as int;
    let total = before.pool.total_deposited as int;
    let y = total_yield as int;
    lemma_even_split_rounding(before, principal, total_yield);
    lemma_paid_out_is_earned(before, after, total_yield);
    lemma_sum_of_equals(positions, principal as int);
    assert(n > 0 && principal > 0) by (nonlinear_arith)
        requires
            n >= 0,
            n * principal > 0,
    ;
    lemma_equal_share(principal as int, y, n);
    lemma_total_stays(positions, total, y, n);
    assert forall|k: int| 0 <= k < n implies {
        &&& (#[trigger] after.positions@[k]).yield_earned == positions[k].yield_earned + y / n
        &&& after.positions@[k].principal == positions[k].principal
    } by {
        lemma_total_stays(positions, total, y, k);
        assert(payable(positions[k], y, running_total(positions, total, y, k)));
    }
}

} // verus!
