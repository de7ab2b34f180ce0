//! Milestones and progress: the thresholds that a saver and a group cross on
//! the way to a target, and the record of each participant's deposits.

use vstd::prelude::*;

verus! {

/// How the amounts of a challenge are scheduled.
#[derive(Clone, Copy, Debug, PartialEq, Eq, Structural)]
pub enum ChallengeType {
    /// The same amount each period.
    Fixed,
    /// An amount that grows each period.
    Incremental,
    /// A share of the saver's income.
    Percentage,
    /// A schedule that the creator defines.
    Custom,
}

/// What the participants of a challenge see of each other.
#[derive(Clone, Copy, Debug, PartialEq, Eq, Structural)]
pub struct SocialFeatures {
    pub public_leaderboard: bool,
    pub enable_cheering: bool,
    pub allow_group_milestone: bool,
}

/// One deposit of a participant.
#[derive(Clone, Copy, Debug, PartialEq, Eq, Structural)]
pub struct Deposit {
    pub amount: i128,
    pub timestamp: u64,
    pub week_number: u32,
}

/// A progress threshold that stays reached once it was crossed.
pub struct Milestone {
    pub description: String,
    pub target_amount: i128,
    pub reached: bool,
    pub reached_at: u64,
    /// The bonus that the milestone adds to a reward, in basis points.
    pub reward_bonus: u32,
}

/// Whether the milestone `m` is crossed for the first time by `amount`.
pub open spec fn crossed(m: Milestone, amount: i128) -> bool {
    !m.reached && amount >= m.target_amount
}

/// The milestone `m` after it was held against `amount` at `now`: reached at
/// `now` where `amount` crosses it for the first time, and as it was otherwise.
pub open spec fn evaluated(m: Milestone, amount: i128, now: u64) -> Milestone {
    if crossed(m, amount) {
        Milestone { reached: true, reached_at: now, ..m }
    } else {
        m
    }
}

/// The milestone at `a` comes before the one at `b` in the order of
/// evaluation: its target is smaller, or the same and it stands earlier.
pub open spec fn evaluated_before(milestones: Seq<Milestone>, a: usize, b: usize) -> bool {
    milestones[a as int].target_amount < milestones[b as int].target_amount || (milestones[a as int].target_amount
        == milestones[b as int].target_amount && a < b)
}

/// The `places` stand in ascending order of the targets of their milestones,
/// and in the order of the places where the targets are the same.
pub open spec fn in_target_order(milestones: Seq<Milestone>, places: Seq<usize>) -> bool {
    forall|x: int, y: int|
        0 <= x < y < places.len() ==> evaluated_before(milestones, places[x], places[y])
}

/// The `places` are those of the milestones in `milestones` that `amount`
/// crosses for the first time, each once, in ascending order of their targets.
pub open spec fn newly_reached(milestones: Seq<Milestone>, amount: i128, places: Seq<usize>) -> bool {
    &&& in_target_order(milestones, places)
    &&& forall|i: usize|
        places.contains(i) <==> (i < milestones.len() && crossed(milestones[i as int], amount))
}

/// `after` continues `before`: every milestone is still there, in its place
/// and with its description, target and bonus, and one that was reached is as
/// it was.
pub open spec fn milestones_continued(before: Seq<Milestone>, after: Seq<Milestone>) -> bool {
    &&& before.len() <= after.len()
    &&& forall|i: int|
        0 <= i < before.len() ==> {
            &&& (#[trigger] after[i]).description == before[i].description
            &&& after[i].target_amount == before[i].target_amount
            &&& after[i].reward_bonus == before[i].reward_bonus
            &&& before[i].reached ==> after[i] == before[i]
        }
}

/// The sum of the bonuses of the milestones in `milestones` that are reached.
pub open spec fn bonus_sum(milestones: Seq<Milestone>) -> int
    decreases milestones.len(),
{
    if milestones.len() == 0 {
        0
    } else {
        bonus_sum(milestones.drop_last()) + (if milestones.last().reached {
            milestones.last().reward_bonus as int
        } else {
            0
        })
    }
}

/// A milestone that is reached stays as it is, whatever amount it is held
/// against and whenever: its flag is not taken back and its time not rewritten.
pub proof fn lemma_reached_stays(m: Milestone, amount: i128, now: u64)
    ensures
        m.reached ==> evaluated(m, amount, now) == m,
        m.reached ==> evaluated(m, amount, now).reached,
        evaluated(m, amount, now).reached == (m.reached || amount >= m.target_amount),
{
}

/// An evaluation never takes a reached flag back: in any list of milestones
/// that was evaluated place by place, each milestone that was reached before
/// is reached after.
pub proof fn lemma_evaluation_monotonic(
    before: Seq<Milestone>,
    after: Seq<Milestone>,
    amount: i128,
    now: u64,
)
    requires
        after.len() == before.len(),
        forall|i: int| 0 <= i < before.len() ==> after[i] == evaluated(before[i], amount, now),
    ensures
        forall|i: int| 0 <= i < before.len() && before[i].reached ==> after[i].reached,
        forall|i: int| 0 <= i < before.len() && before[i].reached ==> after[i] == before[i],
{
}

/// Holds each milestone against `amount` at the time `now` and returns the
/// places of those that are reached by it, in ascending order of their
/// targets. A milestone that was reached before is left as it is.
pub fn evaluate_milestones(milestones: &mut Vec<Milestone>, amount: i128, now: u64) -> (reached: Vec<
    usize,
>)
    ensures
        final(milestones)@.len() == old(milestones)@.len(),
        forall|i: int|
            0 <= i < old(milestones)@.len() ==> final(milestones)@[i] == evaluated(
                old(milestones)@[i],
                amount,
                now,
            ),
        newly_reached(old(milestones)@, amount, reached@),
        milestones_continued(old(milestones)@, final(milestones)@),
{
    let ghost before = milestones@;
    let mut reached: Vec<usize> = Vec::new();
    let count = milestones.len();
    let mut i: usize = 0;
    while i < count
        invariant
            i <= count,
            count == before.len(),
            milestones@.len() == count,
            forall|j: int| 0 <= j < i ==> milestones@[j] == evaluated(before[j], amount, now),
            forall|j: int| i <= j < count ==> milestones@[j] == before[j],
            in_target_order(before, reached@),
            forall|k: usize| reached@.contains(k) <==> (k < i && crossed(before[k as int], amount)),
        decreases count - i,
    {
        if !milestones[i].reached && amount >= milestones[i].target_amount {
            let target = milestones[i].target_amount;
            let milestone = &mut milestones[i];
            milestone.reached = true;
            milestone.reached_at = now;
            let mut place: usize = reached.len();
            assert forall|x: int| 0 <= x < reached@.len() implies reached@[x] < i by {
                assert(reached@.contains(reached@[x]));
            }
            while place > 0 && milestones[reached[place - 1]].target_amount > target
                invariant
                    place <= reached@.len(),
                    i < count,
                    count == before.len(),
                    milestones@.len() == count,
                    target == before[i as int].target_amount,
                    forall|x: int| 0 <= x < reached@.len() ==> reached@[x] < i,
                    forall|j: int|
                        0 <= j < count ==> milestones@[j].target_amount == before[j].target_amount,
                    forall|y: int|
                        place <= y < reached@.len() ==> before[reached@[y] as int].target_amount
                            > target,
                decreases place,
            {
                place -= 1;
            }
            let ghost earlier = reached@;
            reached.insert(place, i);
            proof {
                earlier.insert_ensures(place as int, i);
                let later = reached@;
                assert forall|x: int, y: int| 0 <= x < y < later.len() implies evaluated_before(
                    before,
                    later[x],
                    later[y],
                ) by {
                    if y < place {
                        assert(later[x] == earlier[x] && later[y] == earlier[y]);
                    } else if y == place {
                        assert(later[x] == earlier[x]);
                        if x < place - 1 {
                            assert(evaluated_before(before, earlier[x], earlier[place - 1]));
                        }
                    } else if x < place {
                        assert(later[x] == earlier[x] && later[y] == earlier[y - 1]);
                    } else if x == place {
                        assert(later[y] == earlier[y - 1]);
                    } else {
                        assert(later[x] == earlier[x - 1] && later[y] == earlier[y - 1]);
                    }
                }
                assert forall|k: usize| later.contains(k) <==> (k < i + 1 && crossed(
                    before[k as int],
                    amount,
                )) by {
                    if later.contains(k) {
                        let w = choose|w: int| 0 <= w < later.len() && later[w] == k;
                        if w < place {
                            assert(earlier[w] == k);
                            assert(earlier.contains(k));
                        } else if w > place {
                            assert(earlier[w - 1] == k);
                            assert(earlier.contains(k));
                        }
                    }
                    if k == i {
                        assert(later[place as int] == k);
                    } else if earlier.contains(k) {
                        let w = choose|w: int| 0 <= w < earlier.len() && earlier[w] == k;
                        if w < place {
                            assert(later[w] == k);
                        } else {
                            assert(later[w + 1] == k);
                        }
                    }
                }
            }
        }
        i += 1;
    }
    reached
}

/// The sum of the bonuses of the milestones that are reached; `None` where
/// the sum cannot be held.
pub fn reached_bonus(milestones: &Vec<Milestone>) -> (bonus: Option<u32>)
    ensures
        bonus == (if bonus_sum(milestones@) <= u32::MAX {
            Some(bonus_sum(milestones@) as u32)
        } else {
            None
        }),
{
    let mut bonus: u32 = 0;
    let mut i: usize = 0;
    while i < milestones.len()
        invariant
            i <= milestones.len(),
            bonus == bonus_sum(milestones@.take(i as int)),
        decreases milestones.len() - i,
    {
        assert(milestones@.take(i as int + 1).drop_last() =~= milestones@.take(i as int));
        assert(milestones@.take(i as int + 1).last() == milestones@[i as int]);
        if milestones[i].reached {
            bonus = match bonus.checked_add(milestones[i].reward_bonus) {
                Some(bonus) => bonus,
                None => {
                    proof {
                        lemma_bonus_grows(milestones@, i as int + 1);
                    }
                    return None;
                },
            };
        }
        i += 1;
    }
    assert(milestones@.take(i as int) =~= milestones@);
    Some(bonus)
}

/// The bonuses of the first `k` milestones sum to no more than those of all.
pub proof fn lemma_bonus_grows(milestones: Seq<Milestone>, k: int)
    requires
        0 <= k <= milestones.len(),
    ensures
        0 <= bonus_sum(milestones.take(k)) <= bonus_sum(milestones),
    decreases milestones.len() - k,
{
    lemma_bonus_nonnegative(milestones.take(k));
    if k < milestones.len() {
        lemma_bonus_grows(milestones, k + 1);
        assert(milestones.take(k + 1).drop_last() =~= milestones.take(k));
    } else {
        assert(milestones.take(k) =~= milestones);
    }
}

/// A sum of bonuses is not negative.
pub proof fn lemma_bonus_nonnegative(milestones: Seq<Milestone>)
    ensures
        bonus_sum(milestones) >= 0,
    decreases milestones.len(),
{
    if milestones.len() > 0 {
        lemma_bonus_nonnegative(milestones.drop_last());
    }
}

/// A copy of `milestones`.
pub fn copy_milestones(milestones: &Vec<Milestone>) -> (copy: Vec<Milestone>)
    ensures
        copy@ == milestones@,
{
    let mut copy: Vec<Milestone> = Vec::new();
    let mut i: usize = 0;
    while i < milestones.len()
        invariant
            i <= milestones.len(),
            copy@ == milestones@.take(i as int),
        decreases milestones.len() - i,
    {
        let m = &milestones[i];
        copy.push(
            Milestone {
                description: m.description.clone(),
                target_amount: m.target_amount,
                reached: m.reached,
                reached_at: m.reached_at,
                reward_bonus: m.reward_bonus,
            },
        );
        assert(copy@ =~= milestones@.take(i as int + 1));
        i += 1;
    }
    assert(milestones@.take(i as int) =~= milestones@);
    copy
}

} // verus!
