//! The cross-border yield contract: pools and their ledgers under one
//! administrator, exchange rates, and the record of cross-border transactions.

use vstd::prelude::*;
use vstd::string::*;
use crate::account::AccountId;
use crate::arith::{fits_i128, scale_toward_zero, trunc_div, BASIS_POINTS};
use crate::text::{same_text, hyphenated, decimal_text, decimal_digits};
use crate::yield_pool::{
    PoolLedger, YieldError, YieldPool, YieldPosition, find_position, first_position,
    holds_position, principal_sum,
};

verus! {

/// The rate of a currency pair for which none was set: one to one, at the
/// precision that rates are kept in.
pub const DEFAULT_RATE: i128 = 1000000000;

/// The precision of an exchange rate: the rate of one to one.
pub const RATE_SCALE: i128 = 1000000000;

/// The base fee of a transfer, in basis points of its amount.
pub const BASE_FEE: i128 = 50;

/// The premium of the corridor of a transfer, in basis points of its amount.
pub const CORRIDOR_PREMIUM: i128 = 25;

/// The fee of an arbitrage, in basis points of its amount.
pub const ARBITRAGE_FEE: i128 = 100;

/// What a cross-border transaction does.
#[derive(Clone, Copy, Debug, PartialEq, Eq, Structural)]
pub enum TransactionType {
    YieldDeposit,
    YieldWithdraw,
    RemittanceOut,
    RemittanceIn,
    ArbitrageBot,
}

/// How far a cross-border transaction has come.
#[derive(Clone, Copy, Debug, PartialEq, Eq, Structural)]
pub enum TransactionStatus {
    Pending,
    Processing,
    Completed,
    Failed,
    Cancelled,
}

/// The rate at which one currency pair is exchanged.
pub struct ExchangeRate {
    pub pair: String,
    pub rate: i128,
}

/// A transfer of value from one currency and country to another.
pub struct CrossBorderTransaction {
    pub id: u32,
    pub from_user: AccountId,
    pub to_address: String,
    pub from_currency: String,
    pub to_currency: String,
    pub amount: i128,
    pub exchange_rate: i128,
    pub fees: i128,
    pub corridor: String,
    pub transaction_type: TransactionType,
    pub status: TransactionStatus,
    pub timestamp: u64,
    pub moneygram_ref: String,
}

/// The state of the cross-border yield contract.
pub struct CrossBorderYieldContract {
    pub admin: AccountId,
    pub next_pool_id: u32,
    pub next_transaction_id: u32,
    pub total_value_locked: i128,
    pub corridors: Vec<String>,
    pub ledgers: Vec<PoolLedger>,
    pub transactions: Vec<CrossBorderTransaction>,
    pub rates: Vec<ExchangeRate>,
}

/// `i` is the first ledger in `ledgers` whose pool has the identifier `pool_id`.
pub open spec fn first_pool(ledgers: Seq<PoolLedger>, pool_id: u32, i: int) -> bool {
    &&& 0 <= i < ledgers.len()
    &&& ledgers[i].pool.id == pool_id
    &&& forall|j: int| 0 <= j < i ==> ledgers[j].pool.id != pool_id
}

/// A pool with the identifier `pool_id` is among `ledgers`.
pub open spec fn has_pool(ledgers: Seq<PoolLedger>, pool_id: u32) -> bool {
    exists|i: int| 0 <= i < ledgers.len() && ledgers[i].pool.id == pool_id
}

/// `i` is the first rate in `rates` that is kept for `pair`.
pub open spec fn first_rate(rates: Seq<ExchangeRate>, pair: Seq<char>, i: int) -> bool {
    &&& 0 <= i < rates.len()
    &&& rates[i].pair@ == pair
    &&& forall|j: int| 0 <= j < i ==> rates[j].pair@ != pair
}

/// A rate is kept for `pair`.
pub open spec fn has_rate(rates: Seq<ExchangeRate>, pair: Seq<char>) -> bool {
    exists|i: int| 0 <= i < rates.len() && rates[i].pair@ == pair
}

/// The rates that were set, by currency pair.
pub open spec fn rates_map(rates: Seq<ExchangeRate>) -> Map<Seq<char>, i128> {
    Map::new(
        |pair: Seq<char>| has_rate(rates, pair),
        |pair: Seq<char>| rates[choose|i: int| first_rate(rates, pair, i)].rate,
    )
}

/// The rate of `pair`: the one that was set, or the default.
pub open spec fn rate_for(rates: Seq<ExchangeRate>, pair: Seq<char>) -> i128 {
    if rates_map(rates).dom().contains(pair) {
        rates_map(rates)[pair]
    } else {
        DEFAULT_RATE
    }
}

/// The first rate kept for a pair is the one that the map holds.
pub proof fn lemma_first_rate(rates: Seq<ExchangeRate>, pair: Seq<char>, i: int)
    requires
        first_rate(rates, pair, i),
    ensures
        rates_map(rates).dom().contains(pair),
        rates_map(rates)[pair] == rates[i].rate,
{
    assert(has_rate(rates, pair));
    let c = choose|c: int| first_rate(rates, pair, c);
    if c < i {
        assert(rates[c].pair@ != pair);
    } else if i < c {
        assert(rates[i].pair@ != pair);
    }
}

/// Where a rate is kept for a pair, a first one is.
pub proof fn lemma_has_first_rate(rates: Seq<ExchangeRate>, pair: Seq<char>, w: int)
    requires
        0 <= w < rates.len(),
        rates[w].pair@ == pair,
    ensures
        exists|c: int| first_rate(rates, pair, c),
    decreases w,
{
    if forall|j: int| 0 <= j < w ==> rates[j].pair@ != pair {
        assert(first_rate(rates, pair, w));
    } else {
        let j = choose|j: int| 0 <= j < w && rates[j].pair@ == pair;
        lemma_has_first_rate(rates, pair, j);
    }
}

/// The place of the first rate kept for `pair`.
pub fn find_rate(rates: &Vec<ExchangeRate>, pair: &str) -> (found: Option<usize>)
    ensures
        match found {
            Some(i) => first_rate(rates@, pair@, i as int),
            None => !has_rate(rates@, pair@),
        },
{
    let mut i: usize = 0;
    while i < rates.len()
        invariant
            i <= rates.len(),
            forall|j: int| 0 <= j < i ==> rates[j].pair@ != pair@,
        decreases rates.len() - i,
    {
        if same_text(rates[i].pair.as_str(), pair) {
            return Some(i);
        }
        i += 1;
    }
    None
}

/// The rate of `pair`: the one that was set, or the default.
pub fn lookup_rate(rates: &Vec<ExchangeRate>, pair: &str) -> (rate: i128)
    ensures
        rate == rate_for(rates@, pair@),
{
    match find_rate(rates, pair) {
        Some(i) => {
            proof {
                lemma_first_rate(rates@, pair@, i as int);
            }
            rates[i].rate
        },
        None => DEFAULT_RATE,
    }
}

/// Sets the rate of `pair` to `rate`, in place of the one that was set before.
pub fn store_rate(rates: &mut Vec<ExchangeRate>, pair: String, rate: i128)
    ensures
        rates_map(final(rates)@) == rates_map(old(rates)@).insert(pair@, rate),
{
    let ghost before = rates@;
    let ghost key = pair@;
    let found = find_rate(rates, pair.as_str());
    let ghost place: int = match found {
        Some(i) => i as int,
        None => before.len() as int,
    };
    match found {
        Some(i) => {
            rates.set(i, ExchangeRate { pair, rate });
        },
        None => {
            rates.push(ExchangeRate { pair, rate });
        },
    }
    proof {
        let after = rates@;
        assert(after[place].pair@ == key);
        assert(first_rate(after, key, place));
        assert forall|q: Seq<char>| has_rate(after, q) == (q == key || has_rate(before, q)) by {
            if has_rate(after, q) {
                let j = choose|j: int| 0 <= j < after.len() && after[j].pair@ == q;
                if q != key {
                    assert(before[j].pair@ == q);
                }
            }
            if q == key {
                assert(after[place].pair@ == q);
            } else if has_rate(before, q) {
                let j = choose|j: int| 0 <= j < before.len() && before[j].pair@ == q;
                assert(after[j].pair@ == q);
            }
        }
        assert forall|q: Seq<char>| has_rate(after, q) implies rates_map(after)[q] == (if q == key {
            rate
        } else {
            rates_map(before)[q]
        }) by {
            if q == key {
                lemma_first_rate(after, key, place);
            } else {
                let w = choose|w: int| 0 <= w < before.len() && before[w].pair@ == q;
                lemma_has_first_rate(before, q, w);
                let c = choose|c: int| first_rate(before, q, c);
                assert(first_rate(after, q, c));
                lemma_first_rate(after, q, c);
            }
        }
        assert(rates_map(after) =~= rates_map(before).insert(key, rate));
    }
}

/// The place of the first ledger whose pool has the identifier `pool_id`.
pub fn find_pool(ledgers: &Vec<PoolLedger>, pool_id: u32) -> (found: Option<usize>)
    ensures
        match found {
            Some(i) => first_pool(ledgers@, pool_id, i as int),
            None => !has_pool(ledgers@, pool_id),
        },
{
    let mut i: usize = 0;
    while i < ledgers.len()
        invariant
            i <= ledgers.len(),
            forall|j: int| 0 <= j < i ==> ledgers[j].pool.id != pool_id,
        decreases ledgers.len() - i,
    {
        if ledgers[i].pool.id == pool_id {
            return Some(i);
        }
        i += 1;
    }
    None
}

/// The first ledger of a pool is the only first one.
pub proof fn lemma_first_pool_unique(ledgers: Seq<PoolLedger>, pool_id: u32, i: int, k: int)
    requires
        first_pool(ledgers, pool_id, i),
        first_pool(ledgers, pool_id, k),
    ensures
        i == k,
{
    if k < i {
        assert(ledgers[k].pool.id != pool_id);
    } else if i < k {
        assert(ledgers[i].pool.id != pool_id);
    }
}

/// The country code of a currency code; `XX` for a currency that is not known.
pub open spec fn country_of(currency: Seq<char>) -> Seq<char> {
    if currency == "USD"@ || currency == "USDC"@ {
        "US"@
    } else if currency == "EUR"@ || currency == "EURC"@ {
        "EU"@
    } else if currency == "NGN"@ {
        "NG"@
    } else if currency == "KES"@ {
        "KE"@
    } else if currency == "MXN"@ {
        "MX"@
    } else if currency == "PHP"@ {
        "PH"@
    } else if currency == "INR"@ {
        "IN"@
    } else if currency == "JMD"@ {
        "JM"@
    } else {
        "XX"@
    }
}

impl CrossBorderYieldContract {
    /// The corridors that a fresh contract supports, in the order it lists them.
    pub open spec fn default_corridors() -> Seq<Seq<char>> {
        seq!["US-MX"@, "US-PH"@, "US-NG"@, "US-KE"@, "US-IN"@, "EU-NG"@, "CA-JM"@]
    }

    /// In every pool the total deposited equals the sum of the principals held.
    pub open spec fn reconciled(&self) -> bool {
        forall|i: int| 0 <= i < self.ledgers@.len() ==> (#[trigger] self.ledgers@[i]).reconciled()
    }

    /// In every pool the positions are those of the participants, one each.
    pub open spec fn aligned(&self) -> bool {
        forall|i: int| 0 <= i < self.ledgers@.len() ==> (#[trigger] self.ledgers@[i]).aligned()
    }

    /// `after` continues this contract: every pool is still there, in its
    /// place, and so is every position in it.
    pub open spec fn continued_by(&self, after: &CrossBorderYieldContract) -> bool {
        &&& self.ledgers@.len() <= after.ledgers@.len()
        &&& forall|i: int|
            0 <= i < self.ledgers@.len() ==> self.ledgers@[i].continued_by(
                &#[trigger] after.ledgers@[i],
            )
    }

    /// The pools carry the identifiers 1, 2, 3 and so on, in the order in which
    /// they were created, and the next identifier follows the last.
    pub open spec fn numbered(&self) -> bool {
        &&& self.next_pool_id == self.ledgers@.len() + 1
        &&& forall|i: int|
            0 <= i < self.ledgers@.len() ==> (#[trigger] self.ledgers@[i]).pool.id == i + 1
    }

    /// A contract without pools, rates or transactions, administered by `admin`.
    pub fn initialize(admin: AccountId) -> (contract: Self)
        ensures
            contract.admin == admin,
            contract.next_pool_id == 1,
            contract.next_transaction_id == 1,
            contract.total_value_locked == 0,
            contract.corridors@.len() == 7,
            forall|i: int|
                0 <= i < 7 ==> (#[trigger] contract.corridors@[i])@ == Self::default_corridors()[i],
            contract.ledgers@.len() == 0,
            contract.transactions@.len() == 0,
            contract.rates@.len() == 0,
            contract.reconciled(),
            contract.aligned(),
            contract.numbered(),
    {
        let mut corridors: Vec<String> = Vec::new();
        corridors.push("US-MX".to_owned());
        corridors.push("US-PH".to_owned());
        corridors.push("US-NG".to_owned());
        corridors.push("US-KE".to_owned());
        corridors.push("US-IN".to_owned());
        corridors.push("EU-NG".to_owned());
        corridors.push("CA-JM".to_owned());
        CrossBorderYieldContract {
            admin,
            next_pool_id: 1,
            next_transaction_id: 1,
            total_value_locked: 0,
            corridors,
            ledgers: Vec::new(),
            transactions: Vec::new(),
            rates: Vec::new(),
        }
    }

    /// Why the creation of a pool is refused, if it is.
    pub open spec fn create_refusal(&self, admin: AccountId, min_deposit: i128, max_deposit: i128)
        -> Option<YieldError> {
        if admin != self.admin {
            Some(YieldError::NotAuthorized)
        } else if min_deposit <= 0 || max_deposit <= 0 || min_deposit > max_deposit {
            Some(YieldError::InvalidAmount)
        } else if self.next_pool_id == u32::MAX {
            Some(YieldError::ArithmeticError)
        } else {
            None
        }
    }

    /// Creates an empty, active pool and sets the rate of its currency pair to
    /// the default. Only the administrator may do so, and the deposit bounds
    /// must be positive with the lower one not above the upper one. The pool
    /// takes the next identifier.
    pub fn create_yield_pool(
        &mut self,
        admin: AccountId,
        name: String,
        base_currency: String,
        target_currency: String,
        corridor: String,
        apy_basis_points: u32,
        min_deposit: i128,
        max_deposit: i128,
        lock_duration: u64,
        moneygram_corridor_id: String,
    ) -> (result: Result<u32, YieldError>)
        ensures
            match old(self).create_refusal(admin, min_deposit, max_deposit) {
                Some(e) => result == Err::<u32, YieldError>(e) && *final(self) == *old(self),
                None => {
                    &&& result == Ok::<u32, YieldError>(old(self).next_pool_id)
                    &&& *final(self) == (CrossBorderYieldContract {
                        next_pool_id: (old(self).next_pool_id + 1) as u32,
                        ledgers: final(self).ledgers,
                        rates: final(self).rates,
                        ..*old(self)
                    })
                    &&& final(self).ledgers@.len() == old(self).ledgers@.len() + 1
                    &&& final(self).ledgers@.drop_last() == old(self).ledgers@
                    &&& final(self).ledgers@.last().positions@.len() == 0
                    &&& final(self).ledgers@.last().pool.participants@.len() == 0
                    &&& final(self).ledgers@.last().pool == (YieldPool {
                        id: old(self).next_pool_id,
                        name,
                        base_currency,
                        target_currency,
                        corridor,
                        total_deposited: 0,
                        total_yield_earned: 0,
                        apy_basis_points,
                        participants: final(self).ledgers@.last().pool.participants,
                        is_active: true,
                        min_deposit,
                        max_deposit,
                        lock_duration,
                        moneygram_corridor_id,
                    })
                    &&& rates_map(final(self).rates@) == rates_map(old(self).rates@).insert(
                        base_currency@ + "-"@ + target_currency@,
                        DEFAULT_RATE,
                    )
                },
            },
            old(self).continued_by(final(self)),
            old(self).reconciled() ==> final(self).reconciled(),
            old(self).aligned() ==> final(self).aligned(),
            old(self).numbered() ==> final(self).numbered(),
    {
        if admin != self.admin {
            return Err(YieldError::NotAuthorized);
        }
        if min_deposit <= 0 || max_deposit <= 0 || min_deposit > max_deposit {
            return Err(YieldError::InvalidAmount);
        }
        if self.next_pool_id == u32::MAX {
            return Err(YieldError::ArithmeticError);
        }
        let pool_id = self.next_pool_id;
        let pair = hyphenated(base_currency.as_str(), target_currency.as_str());
        let ledger = PoolLedger {
            pool: YieldPool {
                id: pool_id,
                name,
                base_currency,
                target_currency,
                corridor,
                total_deposited: 0,
                total_yield_earned: 0,
                apy_basis_points,
                participants: Vec::new(),
                is_active: true,
                min_deposit,
                max_deposit,
                lock_duration,
                moneygram_corridor_id,
            },
            positions: Vec::new(),
        };
        assert(ledger.reconciled());
        assert(ledger.aligned());
        self.ledgers.push(ledger);
        self.next_pool_id = pool_id + 1;
        store_rate(&mut self.rates, pair, DEFAULT_RATE);
        assert(self.ledgers@.drop_last() =~= old(self).ledgers@);
        Ok(pool_id)
    }

    /// Why a deposit into the pool `pool_id` is refused, if it is.
    pub open spec fn deposit_refusal(&self, user: AccountId, pool_id: u32, amount: i128, now: u64)
        -> Option<YieldError> {
        if !has_pool(self.ledgers@, pool_id) {
            Some(YieldError::PoolNotFound)
        } else {
            let i = choose|i: int| first_pool(self.ledgers@, pool_id, i);
            match self.ledgers@[i].deposit_refusal(user, amount, now) {
                Some(e) => Some(e),
                None => if fits_i128(self.total_value_locked + amount) {
                    None
                } else {
                    Some(YieldError::ArithmeticError)
                },
            }
        }
    }

    /// Deposits `amount` for `user` into the pool `pool_id` at the time `now`.
    ///
    /// The pool must exist and be active, and the amount must lie within the
    /// pool's bounds. The deposit opens or grows the user's position in the
    /// pool, locks it for the pool's lock duration from `now`, and adds the
    /// amount to the pool's total and to the value locked in all pools.
    pub fn deposit_to_pool(
        &mut self,
        user: AccountId,
        pool_id: u32,
        amount: i128,
        auto_compound: bool,
        now: u64,
    ) -> (result: Result<(), YieldError>)
        ensures
            match old(self).deposit_refusal(user, pool_id, amount, now) {
                Some(e) => result == Err::<(), YieldError>(e) && *final(self) == *old(self),
                None => {
                    let i = choose|i: int| first_pool(old(self).ledgers@, pool_id, i);
                    &&& result is Ok
                    &&& *final(self) == (CrossBorderYieldContract {
                        total_value_locked: (old(self).total_value_locked + amount) as i128,
                        ledgers: final(self).ledgers,
                        ..*old(self)
                    })
                    &&& final(self).ledgers@.len() == old(self).ledgers@.len()
                    &&& forall|k: int|
                        0 <= k < old(self).ledgers@.len() && k != i ==> final(self).ledgers@[k]
                            == old(self).ledgers@[k]
                    &&& old(self).ledgers@[i].deposited(
                        &final(self).ledgers@[i],
                        user,
                        amount,
                        auto_compound,
                        now,
                    )
                },
            },
            old(self).continued_by(final(self)),
            old(self).reconciled() ==> final(self).reconciled(),
            old(self).aligned() ==> final(self).aligned(),
            old(self).numbered() ==> final(self).numbered(),
    {
        let i = match find_pool(&self.ledgers, pool_id) {
            Some(i) => i,
            None => {
                return Err(YieldError::PoolNotFound);
            },
        };
        proof {
            let c = choose|c: int| first_pool(self.ledgers@, pool_id, c);
            lemma_first_pool_unique(self.ledgers@, pool_id, i as int, c);
        }
        match self.ledgers[i].check_deposit(user, amount, now) {
            Some(e) => {
                return Err(e);
            },
            None => {},
        }
        let locked = match self.total_value_locked.checked_add(amount) {
            Some(locked) => locked,
            None => {
                return Err(YieldError::ArithmeticError);
            },
        };
        let ledger = &mut self.ledgers[i];
        let _ = ledger.deposit(user, amount, auto_compound, now);
        self.total_value_locked = locked;
        Ok(())
    }

    /// Why a distribution of yield to the pool `pool_id` is refused, if it is.
    pub open spec fn distribute_refusal(&self, admin: AccountId, pool_id: u32, total_yield: i128)
        -> Option<YieldError> {
        if admin != self.admin {
            Some(YieldError::NotAuthorized)
        } else if !has_pool(self.ledgers@, pool_id) {
            Some(YieldError::PoolNotFound)
        } else {
            let i = choose|i: int| first_pool(self.ledgers@, pool_id, i);
            if self.ledgers@[i].distributable(total_yield) {
                None
            } else {
                Some(YieldError::ArithmeticError)
            }
        }
    }

    /// Distributes `total_yield` among the participants of the pool `pool_id`
    /// in proportion to their principal. Only the administrator may do so, and
    /// the pool must hold deposits.
    pub fn distribute_yield(&mut self, admin: AccountId, pool_id: u32, total_yield: i128) -> (result:
        Result<(), YieldError>)
        ensures
            match old(self).distribute_refusal(admin, pool_id, total_yield) {
                Some(e) => result == Err::<(), YieldError>(e) && *final(self) == *old(self),
                None => {
                    let i = choose|i: int| first_pool(old(self).ledgers@, pool_id, i);
                    &&& result is Ok
                    &&& *final(self) == (CrossBorderYieldContract {
                        ledgers: final(self).ledgers,
                        ..*old(self)
                    })
                    &&& final(self).ledgers@.len() == old(self).ledgers@.len()
                    &&& forall|k: int|
                        0 <= k < old(self).ledgers@.len() && k != i ==> final(self).ledgers@[k]
                            == old(self).ledgers@[k]
                    &&& old(self).ledgers@[i].paid_into(&final(self).ledgers@[i], total_yield)
                },
            },
            old(self).continued_by(final(self)),
            old(self).reconciled() ==> final(self).reconciled(),
            old(self).aligned() ==> final(self).aligned(),
            old(self).numbered() ==> final(self).numbered(),
    {
        if admin != self.admin {
            return Err(YieldError::NotAuthorized);
        }
        let i = match find_pool(&self.ledgers, pool_id) {
            Some(i) => i,
            None => {
                return Err(YieldError::PoolNotFound);
            },
        };
        proof {
            let c = choose|c: int| first_pool(self.ledgers@, pool_id, c);
            lemma_first_pool_unique(self.ledgers@, pool_id, i as int, c);
        }
        let payout = match self.ledgers[i].plan_distribution(total_yield) {
            Some(payout) => payout,
            None => {
                return Err(YieldError::ArithmeticError);
            },
        };
        let ledger = &mut self.ledgers[i];
        ledger.settle(payout);
        proof {
            old(self).ledgers@[i as int].lemma_paid_keeps_holders(
                &self.ledgers@[i as int],
                total_yield,
            );
        }
        Ok(())
    }
}

/// The positions that `user` holds in the pools of `ledgers`, in the order of the pools.
pub open spec fn positions_of(ledgers: Seq<PoolLedger>, user: AccountId) -> Seq<YieldPosition>
    decreases ledgers.len(),
{
    if ledgers.len() == 0 {
        Seq::empty()
    } else {
        let earlier = positions_of(ledgers.drop_last(), user);
        let held = ledgers.last().positions@;
        if holds_position(held, user) {
            earlier.push(held[choose|i: int| first_position(held, user, i)])
        } else {
            earlier
        }
    }
}

/// The fee of a transfer of `amount`: half a percent, and a quarter of a percent
/// for the corridor, each rounded toward zero.
pub open spec fn transfer_fees(amount: int) -> int {
    trunc_div(amount * 50, 10000) + trunc_div(amount * 25, 10000)
}

/// What an arbitrage of `amount` between two rates gains before fees: the amount
/// converted at the first rate and back at the second, less the amount.
pub open spec fn arbitrage_profit(amount: int, from_rate: int, to_rate: int) -> int {
    trunc_div(trunc_div(amount * from_rate, 1000000000) * 1000000000, to_rate) - amount
}

/// Whether the gain of an arbitrage can be computed: the second rate is
/// positive and every value on the way can be held.
pub open spec fn arbitrage_computable(amount: int, from_rate: int, to_rate: int) -> bool {
    &&& to_rate > 0
    &&& fits_i128(amount * from_rate)
    &&& fits_i128(trunc_div(amount * from_rate, 1000000000) * 1000000000)
    &&& fits_i128(arbitrage_profit(amount, from_rate, to_rate))
    &&& fits_i128(amount * 100)
    &&& fits_i128(arbitrage_profit(amount, from_rate, to_rate) - trunc_div(amount * 100, 10000))
}

/// The yield that `amount` is projected to earn in `duration_days` days at
/// `apy_basis_points`: the yield of one day, rounded toward zero, times the days.
pub open spec fn projected_yield(apy_basis_points: u32, amount: int, duration_days: u32) -> int {
    trunc_div(apy_basis_points * amount, 3650000) * duration_days
}

impl CrossBorderYieldContract {
    /// Why a cross-border transfer of `amount` is refused, if it is.
    pub open spec fn transfer_refusal(&self, amount: i128) -> Option<YieldError> {
        if !fits_i128(amount * 50) || !fits_i128(amount * 25) || !fits_i128(
            transfer_fees(amount as int),
        ) || self.next_transaction_id == u32::MAX {
            Some(YieldError::ArithmeticError)
        } else {
            None
        }
    }

    /// Records a pending transfer of `amount` from `sender` to `to_address`,
    /// priced at the rate of the currency pair and charged the transfer fees,
    /// and returns its identifier. The corridor of the transfer joins the
    /// countries of the two currencies.
    pub fn send_cross_border(
        &mut self,
        sender: AccountId,
        to_address: String,
        from_currency: String,
        to_currency: String,
        amount: i128,
        use_yield_pool: bool,
        now: u64,
    ) -> (result: Result<u32, YieldError>)
        ensures
            match old(self).transfer_refusal(amount) {
                Some(e) => result == Err::<u32, YieldError>(e) && *final(self) == *old(self),
                None => {
                    let record = final(self).transactions@.last();
                    &&& result == Ok::<u32, YieldError>(old(self).next_transaction_id)
                    &&& *final(self) == (CrossBorderYieldContract {
                        next_transaction_id: (old(self).next_transaction_id + 1) as u32,
                        transactions: final(self).transactions,
                        ..*old(self)
                    })
                    &&& final(self).transactions@.len() == old(self).transactions@.len() + 1
                    &&& final(self).transactions@.drop_last() == old(self).transactions@
                    &&& record.id == old(self).next_transaction_id
                    &&& record.from_user == sender
                    &&& record.to_address == to_address
                    &&& record.from_currency == from_currency
                    &&& record.to_currency == to_currency
                    &&& record.amount == amount
                    &&& record.exchange_rate == rate_for(
                        old(self).rates@,
                        from_currency@ + "-"@ + to_currency@,
                    )
                    &&& record.fees == transfer_fees(amount as int)
                    &&& record.corridor@ == country_of(from_currency@) + "-"@ + country_of(
                        to_currency@,
                    )
                    &&& record.transaction_type == (if use_yield_pool {
                        TransactionType::YieldWithdraw
                    } else {
                        TransactionType::RemittanceOut
                    })
                    &&& record.status == TransactionStatus::Pending
                    &&& record.timestamp == now
                    &&& record.moneygram_ref@ == "SSAVE"@ + decimal_digits(
                        old(self).next_transaction_id as nat,
                    )
                },
            },
    {
        let base_fee = match scale_toward_zero(amount, BASE_FEE, BASIS_POINTS) {
            Some(fee) => fee,
            None => {
                return Err(YieldError::ArithmeticError);
            },
        };
        let corridor_premium = match scale_toward_zero(amount, CORRIDOR_PREMIUM, BASIS_POINTS) {
            Some(fee) => fee,
            None => {
                return Err(YieldError::ArithmeticError);
            },
        };
        let fees = match base_fee.checked_add(corridor_premium) {
            Some(fees) => fees,
            None => {
                return Err(YieldError::ArithmeticError);
            },
        };
        if self.next_transaction_id == u32::MAX {
            return Err(YieldError::ArithmeticError);
        }
        let id = self.next_transaction_id;
        let corridor = hyphenated(
            Self::get_currency_country(from_currency.as_str()),
            Self::get_currency_country(to_currency.as_str()),
        );
        let pair = hyphenated(from_currency.as_str(), to_currency.as_str());
        let exchange_rate = lookup_rate(&self.rates, pair.as_str());
        let mut moneygram_ref = "SSAVE".to_owned();
        moneygram_ref.append(decimal_text(id).as_str());
        let record = CrossBorderTransaction {
            id,
            from_user: sender,
            to_address,
            from_currency,
            to_currency,
            amount,
            exchange_rate,
            fees,
            corridor,
            transaction_type: if use_yield_pool {
                TransactionType::YieldWithdraw
            } else {
                TransactionType::RemittanceOut
            },
            status: TransactionStatus::Pending,
            timestamp: now,
            moneygram_ref,
        };
        self.transactions.push(record);
        self.next_transaction_id = id + 1;
        assert(self.transactions@.drop_last() =~= old(self).transactions@);
        Ok(id)
    }

    /// Sets the rate of `currency_pair` to `new_rate`. Only the administrator may do so.
    pub fn update_exchange_rate(&mut self, admin: AccountId, currency_pair: String, new_rate: i128)
        -> (result: Result<(), YieldError>)
        ensures
            admin != old(self).admin ==> result == Err::<(), YieldError>(
                YieldError::NotAuthorized,
            ) && *final(self) == *old(self),
            admin == old(self).admin ==> {
                &&& result is Ok
                &&& *final(self) == (CrossBorderYieldContract {
                    rates: final(self).rates,
                    ..*old(self)
                })
                &&& rates_map(final(self).rates@) == rates_map(old(self).rates@).insert(
                    currency_pair@,
                    new_rate,
                )
            },
    {
        if admin != self.admin {
            return Err(YieldError::NotAuthorized);
        }
        store_rate(&mut self.rates, currency_pair, new_rate);
        Ok(())
    }

    /// The gain, after a fee of one percent of `amount`, of converting `amount`
    /// at the rate of `from_corridor` and back at the rate of `to_corridor`;
    /// nothing where the gain before the fee does not exceed the fee.
    pub fn execute_arbitrage(&self, from_corridor: &str, to_corridor: &str, amount: i128) -> (result:
        Result<i128, YieldError>)
        ensures
            ({
                let from_rate = rate_for(self.rates@, from_corridor@) as int;
                let to_rate = rate_for(self.rates@, to_corridor@) as int;
                let profit = arbitrage_profit(amount as int, from_rate, to_rate);
                let fees = trunc_div(amount * 100, 10000);
                if !arbitrage_computable(amount as int, from_rate, to_rate) {
                    result == Err::<i128, YieldError>(YieldError::ArithmeticError)
                } else if profit > fees {
                    result == Ok::<i128, YieldError>((profit - fees) as i128)
                } else {
                    result == Ok::<i128, YieldError>(0)
                }
            }),
    {
        let from_rate = lookup_rate(&self.rates, from_corridor);
        let to_rate = lookup_rate(&self.rates, to_corridor);
        if to_rate <= 0 {
            return Err(YieldError::ArithmeticError);
        }
        let converted = match scale_toward_zero(amount, from_rate, RATE_SCALE) {
            Some(converted) => converted,
            None => {
                return Err(YieldError::ArithmeticError);
            },
        };
        let final_amount = match scale_toward_zero(converted, RATE_SCALE, to_rate) {
            Some(final_amount) => final_amount,
            None => {
                return Err(YieldError::ArithmeticError);
            },
        };
        let profit = match final_amount.checked_sub(amount) {
            Some(profit) => profit,
            None => {
                return Err(YieldError::ArithmeticError);
            },
        };
        let fees = match scale_toward_zero(amount, ARBITRAGE_FEE, BASIS_POINTS) {
            Some(fees) => fees,
            None => {
                return Err(YieldError::ArithmeticError);
            },
        };
        let gain = match profit.checked_sub(fees) {
            Some(gain) => gain,
            None => {
                return Err(YieldError::ArithmeticError);
            },
        };
        if profit > fees {
            Ok(gain)
        } else {
            Ok(0)
        }
    }

    /// The pool with the identifier `pool_id`.
    pub fn get_yield_pool(&self, pool_id: u32) -> (result: Result<&YieldPool, YieldError>)
        ensures
            match result {
                Ok(pool) => exists|i: int|
                    first_pool(self.ledgers@, pool_id, i) && *pool == self.ledgers@[i].pool,
                Err(e) => e == YieldError::PoolNotFound && !has_pool(self.ledgers@, pool_id),
            },
    {
        match find_pool(&self.ledgers, pool_id) {
            Some(i) => Ok(&self.ledgers[i].pool),
            None => Err(YieldError::PoolNotFound),
        }
    }

    /// The positions that `user` holds, one for each pool the user deposited
    /// into, in the order of the pools; none for a user without deposits.
    pub fn get_user_positions(&self, user: AccountId) -> (positions: Vec<YieldPosition>)
        ensures
            positions@ == positions_of(self.ledgers@, user),
    {
        let mut positions: Vec<YieldPosition> = Vec::new();
        let mut k: usize = 0;
        while k < self.ledgers.len()
            invariant
                k <= self.ledgers.len(),
                positions@ == positions_of(self.ledgers@.take(k as int), user),
            decreases self.ledgers.len() - k,
        {
            let ghost held = self.ledgers@[k as int].positions@;
            assert(self.ledgers@.take(k as int + 1).drop_last() =~= self.ledgers@.take(k as int));
            assert(self.ledgers@.take(k as int + 1).last() == self.ledgers@[k as int]);
            match find_position(&self.ledgers[k].positions, user) {
                Some(i) => {
                    proof {
                        assert(holds_position(held, user));
                        let c = choose|c: int| first_position(held, user, c);
                        if c < i {
                            assert(held[c].user != user);
                        } else if i < c {
                            assert(held[i as int].user != user);
                        }
                    }
                    positions.push(self.ledgers[k].positions[i]);
                },
                None => {},
            }
            k += 1;
        }
        assert(self.ledgers@.take(k as int) =~= self.ledgers@);
        positions
    }

    /// The rate of `currency_pair`: the one that was set, or the default.
    pub fn get_exchange_rate(&self, currency_pair: &str) -> (rate: i128)
        ensures
            rate == rate_for(self.rates@, currency_pair@),
    {
        lookup_rate(&self.rates, currency_pair)
    }

    /// The value locked in all pools.
    pub fn get_total_value_locked(&self) -> (locked: i128)
        ensures
            locked == self.total_value_locked,
    {
        self.total_value_locked
    }

    /// The corridors that the contract supports.
    pub fn get_supported_corridors(&self) -> (corridors: &Vec<String>)
        ensures
            *corridors == self.corridors,
    {
        &self.corridors
    }

    /// The yield that `amount` is projected to earn in the pool `pool_id` in
    /// `duration_days` days, at the pool's annual rate.
    pub fn calculate_projected_yield(&self, pool_id: u32, amount: i128, duration_days: u32) -> (result:
        Result<i128, YieldError>)
        ensures
            !has_pool(self.ledgers@, pool_id) ==> result == Err::<i128, YieldError>(
                YieldError::PoolNotFound,
            ),
            has_pool(self.ledgers@, pool_id) ==> ({
                let i = choose|i: int| first_pool(self.ledgers@, pool_id, i);
                let apy = self.ledgers@[i].pool.apy_basis_points;
                if fits_i128(apy * amount) && fits_i128(
                    projected_yield(apy, amount as int, duration_days),
                ) {
                    result == Ok::<i128, YieldError>(
                        projected_yield(apy, amount as int, duration_days) as i128,
                    )
                } else {
                    result == Err::<i128, YieldError>(YieldError::ArithmeticError)
                }
            }),
    {
        let i = match find_pool(&self.ledgers, pool_id) {
            Some(i) => i,
            None => {
                return Err(YieldError::PoolNotFound);
            },
        };
        proof {
            let c = choose|c: int| first_pool(self.ledgers@, pool_id, c);
            lemma_first_pool_unique(self.ledgers@, pool_id, i as int, c);
        }
        let apy: i128 = self.ledgers[i].pool.apy_basis_points as i128;
        let daily_rate = match scale_toward_zero(apy, amount, 3650000) {
            Some(daily_rate) => daily_rate,
            None => {
                return Err(YieldError::ArithmeticError);
            },
        };
        match daily_rate.checked_mul(duration_days as i128) {
            Some(projected) => Ok(projected),
            None => Err(YieldError::ArithmeticError),
        }
    }

    /// The country code of a currency code; `XX` for a currency that is not known.
    pub fn get_currency_country(currency: &str) -> (country: &'static str)
        ensures
            country@ == country_of(currency@),
    {
        if same_text(currency, "USD") || same_text(currency, "USDC") {
            "US"
        } else if same_text(currency, "EUR") || same_text(currency, "EURC") {
            "EU"
        } else if same_text(currency, "NGN") {
            "NG"
        } else if same_text(currency, "KES") {
            "KE"
        } else if same_text(currency, "MXN") {
            "MX"
        } else if same_text(currency, "PHP") {
            "PH"
        } else if same_text(currency, "INR") {
            "IN"
        } else if same_text(currency, "JMD") {
            "JM"
        } else {
            "XX"
        }
    }

    /// Admits an emergency withdrawal of `user` from the pool `pool_id`, whatever
    /// the lock of the position. Only the administrator may ask for it.
    pub fn emergency_withdraw(&self, admin: AccountId, user: AccountId, pool_id: u32) -> (result:
        Result<(), YieldError>)
        ensures
            result == (if admin == self.admin {
                Ok::<(), YieldError>(())
            } else {
                Err::<(), YieldError>(YieldError::NotAuthorized)
            }),
    {
        if admin != self.admin {
            return Err(YieldError::NotAuthorized);
        }
        Ok(())
    }
}

/// The sum of the principals of those of `positions` that refer to the pool `pool_id`.
pub open spec fn principal_in(positions: Seq<YieldPosition>, pool_id: u32) -> int
    decreases positions.len(),
{
    if positions.len() == 0 {
        0
    } else {
        principal_in(positions.drop_last(), pool_id) + (if positions.last().pool_id == pool_id {
            positions.last().principal as int
        } else {
            0
        })
    }
}

/// The sum of the principals of all positions, in whatever ledger, that refer
/// to the pool `pool_id`.
pub open spec fn principal_of_pool(ledgers: Seq<PoolLedger>, pool_id: u32) -> int
    decreases ledgers.len(),
{
    if ledgers.len() == 0 {
        0
    } else {
        principal_of_pool(ledgers.drop_last(), pool_id) + principal_in(
            ledgers.last().positions@,
            pool_id,
        )
    }
}

/// Positions that all refer to one pool sum to their whole for that pool, and
/// to nothing for any other.
pub proof fn lemma_principal_of_own_pool(positions: Seq<YieldPosition>, own: u32, pool_id: u32)
    requires
        forall|j: int| 0 <= j < positions.len() ==> (#[trigger] positions[j]).pool_id == own,
    ensures
        principal_in(positions, pool_id) == (if pool_id == own {
            principal_sum(positions)
        } else {
            0
        }),
    decreases positions.len(),
{
    if positions.len() > 0 {
        lemma_principal_of_own_pool(positions.drop_last(), own, pool_id);
        assert(positions.last() == positions[positions.len() - 1]);
    }
}

impl CrossBorderYieldContract {
    /// The reconciliation of the pools: where the contract is reconciled,
    /// aligned and numbered, the total deposited in each pool equals the sum
    /// of the principals of all positions that refer to the pool.
    pub proof fn lemma_pools_reconcile(&self, i: int)
        requires
            self.reconciled(),
            self.aligned(),
            self.numbered(),
            0 <= i < self.ledgers@.len(),
        ensures
            self.ledgers@[i].pool.total_deposited == principal_of_pool(
                self.ledgers@,
                self.ledgers@[i].pool.id,
            ),
    {
        Self::lemma_pool_prefix(self.ledgers@, i, self.ledgers@.len() as int);
        assert(self.ledgers@.take(self.ledgers@.len() as int) =~= self.ledgers@);
        assert(self.ledgers@[i].reconciled());
    }

    /// Among the first `k` ledgers, the positions that refer to the pool of
    /// the ledger at `i` are those of that ledger, if it is among them.
    pub proof fn lemma_pool_prefix(ledgers: Seq<PoolLedger>, i: int, k: int)
        requires
            0 <= i < ledgers.len(),
            0 <= k <= ledgers.len(),
            forall|j: int| 0 <= j < ledgers.len() ==> (#[trigger] ledgers[j]).aligned(),
            forall|j: int| 0 <= j < ledgers.len() ==> (#[trigger] ledgers[j]).pool.id == j + 1,
        ensures
            principal_of_pool(ledgers.take(k), ledgers[i].pool.id) == (if i < k {
                principal_sum(ledgers[i].positions@)
            } else {
                0
            }),
        decreases k,
    {
        if k > 0 {
            Self::lemma_pool_prefix(ledgers, i, k - 1);
            assert(ledgers.take(k).drop_last() =~= ledgers.take(k - 1));
            assert(ledgers.take(k).last() == ledgers[k - 1]);
            let last = ledgers[k - 1];
            assert(last.aligned());
            assert forall|j: int| 0 <= j < last.positions@.len() implies (
            #[trigger] last.positions@[j]).pool_id == last.pool.id by {}
            lemma_principal_of_own_pool(last.positions@, last.pool.id, ledgers[i].pool.id);
        } else {
            assert(ledgers.take(0).len() == 0);
        }
    }
}

} // verus!
