//! Dice rolling and power-roll resolution.
//!
//! A power roll is a 2d10-plus-bonus check resolved into a discrete outcome
//! tier. Edge (advantage) and bane (disadvantage) modifiers combine into a
//! net modifier: a net of plus or minus one adjusts the roll by two before
//! the tier lookup, while a net of plus or minus two shifts the resulting
//! tier itself one step, saturating at the outer tiers.

use rand::Rng;
use vstd::prelude::*;

verus! {

/// The discrete outcome bucket a power roll resolves to.
#[derive(Debug, Clone, Copy, PartialEq, Eq, Structural)]
pub enum PowerRollResultTier {
    Tier1,
    Tier2,
    Tier3,
}

/// Advantage on a power roll.
#[derive(Debug, Clone, Copy, PartialEq, Eq, Structural)]
pub enum EdgeState {
    Absent,
    Single,
    Double,
}

/// Disadvantage on a power roll.
#[derive(Debug, Clone, Copy, PartialEq, Eq, Structural)]
pub enum BaneState {
    Absent,
    Single,
    Double,
}

/// The tier a final roll value falls into: 11 and below is `Tier1`,
/// 12 through 16 is `Tier2`, 17 and above is `Tier3`.
pub open spec fn tier_of(roll: int) -> PowerRollResultTier {
    if roll <= 11 {
        PowerRollResultTier::Tier1
    } else if roll <= 16 {
        PowerRollResultTier::Tier2
    } else {
        PowerRollResultTier::Tier3
    }
}

/// The magnitude an edge state contributes to the net modifier.
pub open spec fn edge_magnitude(edge: EdgeState) -> int {
    match edge {
        EdgeState::Absent => 0,
        EdgeState::Single => 1,
        EdgeState::Double => 2,
    }
}

/// The magnitude a bane state subtracts from the net modifier.
pub open spec fn bane_magnitude(bane: BaneState) -> int {
    match bane {
        BaneState::Absent => 0,
        BaneState::Single => 1,
        BaneState::Double => 2,
    }
}

/// The outcome of resolving a power roll from a known natural roll: a net
/// modifier of plus or minus one adjusts the roll by two before the tier
/// lookup, and a net modifier of plus or minus two shifts the looked-up
/// tier one step, saturating at `Tier1` and `Tier3`.
pub open spec fn power_tier_of(
    natural_roll: int,
    bonus: int,
    edge: EdgeState,
    bane: BaneState,
) -> PowerRollResultTier {
    let net = edge_magnitude(edge) - bane_magnitude(bane);
    let adjusted = if net == 1 {
        natural_roll + bonus + 2
    } else if net == -1 {
        natural_roll + bonus - 2
    } else {
        natural_roll + bonus
    };
    let tier = tier_of(adjusted);
    if net == 2 && tier == PowerRollResultTier::Tier1 {
        PowerRollResultTier::Tier2
    } else if net == 2 && tier == PowerRollResultTier::Tier2 {
        PowerRollResultTier::Tier3
    } else if net == -2 && tier == PowerRollResultTier::Tier2 {
        PowerRollResultTier::Tier1
    } else if net == -2 && tier == PowerRollResultTier::Tier3 {
        PowerRollResultTier::Tier2
    } else {
        tier
    }
}

/// Maps a final roll value to its outcome tier.
pub fn to_tier(roll: i32) -> (tier: PowerRollResultTier)
    ensures
        tier == tier_of(roll as int),
{
    if roll <= 11 {
        PowerRollResultTier::Tier1
    } else if roll <= 16 {
        PowerRollResultTier::Tier2
    } else {
        PowerRollResultTier::Tier3
    }
}

/// Resolves a power roll whose natural roll is already known, so that a
/// deterministic dice source can be supplied in place of a random one.
pub fn to_power_roll(
    natural_roll: i32,
    bonus: i32,
    edge: EdgeState,
    bane: BaneState,
) -> (tier: PowerRollResultTier)
    requires
        i32::MIN <= natural_roll + bonus - 2,
        natural_roll + bonus + 2 <= i32::MAX,
    ensures
        tier == power_tier_of(natural_roll as int, bonus as int, edge, bane),
{
    let mut total_edge: i32 = 0;
    match edge {
        EdgeState::Single => total_edge = total_edge + 1,
        EdgeState::Double => total_edge = total_edge + 2,
        _ => (),
    }
    match bane {
        BaneState::Single => total_edge = total_edge - 1,
        BaneState::Double => total_edge = total_edge - 2,
        _ => (),
    }

    let final_roll_result = if total_edge == 1 {
        natural_roll + bonus + 2
    } else if total_edge == -1 {
        natural_roll + bonus - 2
    } else {
        natural_roll + bonus
    };

    let tier = to_tier(final_roll_result);

    if total_edge == 2 && tier == PowerRollResultTier::Tier1 {
        PowerRollResultTier::Tier2
    } else if total_edge == 2 && tier == PowerRollResultTier::Tier2 {
        PowerRollResultTier::Tier3
    } else if total_edge == -2 && tier == PowerRollResultTier::Tier2 {
        PowerRollResultTier::Tier1
    } else if total_edge == -2 && tier == PowerRollResultTier::Tier3 {
        PowerRollResultTier::Tier2
    } else {
        tier
    }
}

/// Relies on rand's `Rng::gen_range` over the inclusive range `1..=sides`:
/// a draw from a thread-local generator, somewhere in that range.
#[verifier::external_body]
fn roll_die(sides: u32) -> (r: u32)
    requires
        1 <= sides,
    ensures
        1 <= r <= sides,
{
    rand::thread_rng().gen_range(1..=sides)
}

/// Rolls a pool of three-sided dice; each result is between 1 and 3.
pub fn rolld3s(d3s: u32) -> (rolls: Vec<i32>)
    ensures
        rolls@.len() == d3s,
        forall|i: int| 0 <= i < rolls@.len() ==> 1 <= #[trigger] rolls@[i] <= 3,
{
    let mut rolls: Vec<i32> = Vec::new();
    let mut n: u32 = 0;
    while n < d3s
        invariant
            n <= d3s,
            rolls@.len() == n,
            forall|i: int| 0 <= i < rolls@.len() ==> 1 <= #[trigger] rolls@[i] <= 3,
        decreases d3s - n,
    {
        let die = roll_die(3);
        rolls.push(die as i32);
        n = n + 1;
    }
    rolls
}

/// Rolls a pool of ten-sided dice; each result is between 1 and 10.
pub fn rolld10s(d10s: u32) -> (rolls: Vec<i32>)
    ensures
        rolls@.len() == d10s,
        forall|i: int| 0 <= i < rolls@.len() ==> 1 <= #[trigger] rolls@[i] <= 10,
{
    let mut rolls: Vec<i32> = Vec::new();
    let mut n: u32 = 0;
    while n < d10s
        invariant
            n <= d10s,
            rolls@.len() == n,
            forall|i: int| 0 <= i < rolls@.len() ==> 1 <= #[trigger] rolls@[i] <= 10,
        decreases d10s - n,
    {
        let die = roll_die(10);
        rolls.push(die as i32);
        n = n + 1;
    }
    rolls
}

/// The sum of a sequence of dice results.
pub open spec fn sum_of(s: Seq<int>) -> int
    decreases s.len(),
{
    if s.len() == 0 {
        0
    } else {
        sum_of(s.drop_last()) + s.last()
    }
}

/// A sum of elements that each lie in a range lies in the summed range.
pub proof fn lemma_sum_bounds(s: Seq<int>, lo: int, hi: int)
    requires
        forall|i: int| 0 <= i < s.len() ==> lo <= #[trigger] s[i] <= hi,
    ensures
        lo * s.len() <= sum_of(s) <= hi * s.len(),
    decreases s.len(),
{
    if s.len() > 0 {
        let rest = s.drop_last();
        lemma_sum_bounds(rest, lo, hi);
        assert(lo * s.len() == lo * rest.len() + lo) by (nonlinear_arith)
            requires s.len() == rest.len() + 1;
        assert(hi * s.len() == hi * rest.len() + hi) by (nonlinear_arith)
            requires s.len() == rest.len() + 1;
    }
}

/// The views of a vector of dice results, as mathematical integers.
pub open spec fn results_of(rolls: Seq<i32>) -> Seq<int> {
    rolls.map_values(|x: i32| x as int)
}

/// Sums two pools of dice results and adds a flat bonus: the deterministic
/// part of a roll, so that a fixed sequence of dice can stand in for the
/// random source.
pub fn total_roll(d3_results: &Vec<i32>, d10_results: &Vec<i32>, bonus: i32) -> (r: i32)
    requires
        forall|i: int| 0 <= i < d3_results@.len() ==> 1 <= #[trigger] d3_results@[i] <= 3,
        forall|i: int| 0 <= i < d10_results@.len() ==> 1 <= #[trigger] d10_results@[i] <= 10,
        3 * d3_results@.len() + 10 * d10_results@.len() <= i32::MAX,
        3 * d3_results@.len() + 10 * d10_results@.len() + bonus <= i32::MAX,
    ensures
        r == sum_of(results_of(d3_results@)) + sum_of(results_of(d10_results@)) + bonus,
{
    proof {
        lemma_sum_bounds(results_of(d3_results@), 1, 3);
        lemma_sum_bounds(results_of(d10_results@), 1, 10);
    }
    let first = sum_pool(d3_results, 3);
    let second = sum_pool(d10_results, 10);
    first + second + bonus
}

/// Sums one pool of dice results whose elements lie between 1 and `hi`.
fn sum_pool(rolls: &Vec<i32>, hi: i32) -> (r: i32)
    requires
        1 <= hi,
        forall|i: int| 0 <= i < rolls@.len() ==> 1 <= #[trigger] rolls@[i] <= hi,
        hi * rolls@.len() <= i32::MAX,
    ensures
        r == sum_of(results_of(rolls@)),
        0 <= r <= hi * rolls@.len(),
{
    let ghost all = results_of(rolls@);
    let mut r: i32 = 0;
    let mut i: usize = 0;
    while i < rolls.len()
        invariant
            i <= rolls@.len(),
            all == results_of(rolls@),
            1 <= hi,
            forall|j: int| 0 <= j < rolls@.len() ==> 1 <= #[trigger] rolls@[j] <= hi,
            hi * rolls@.len() <= i32::MAX,
            r == sum_of(all.take(i as int)),
            0 <= r <= hi * i,
        decreases rolls@.len() - i,
    {
        proof {
            assert(all.take(i + 1).drop_last() =~= all.take(i as int));
            assert(all.take(i + 1).last() == rolls@[i as int] as int);
            assert(hi * (i + 1) <= hi * rolls@.len()) by (nonlinear_arith)
                requires 1 <= hi, i + 1 <= rolls@.len();
            assert(hi * (i + 1) == hi * i + hi) by (nonlinear_arith);
        }
        r = r + rolls[i];
        i = i + 1;
    }
    proof {
        assert(all.take(rolls@.len() as int) =~= all);
    }
    r
}

/// Rolls a pool of d3s and d10s and adds a flat bonus; the result is the
/// sum of the drawn dice plus the bonus, so it lies between one per die
/// plus the bonus and the dice maxima plus the bonus.
pub fn roll(d3s: u32, d10s: u32, bonus: i32) -> (r: i32)
    requires
        3 * d3s + 10 * d10s <= i32::MAX,
        3 * d3s + 10 * d10s + bonus <= i32::MAX,
    ensures
        d3s + d10s + bonus <= r <= 3 * d3s + 10 * d10s + bonus,
{
    let d3_results = rolld3s(d3s);
    let d10_results = rolld10s(d10s);
    proof {
        lemma_sum_bounds(results_of(d3_results@), 1, 3);
        lemma_sum_bounds(results_of(d10_results@), 1, 10);
    }
    total_roll(&d3_results, &d10_results, bonus)
}

/// Resolves a full power roll: two d10 are drawn, and the resulting natural
/// roll is resolved with the given bonus and modifiers. Every outcome is the
/// resolution of some natural roll between 2 and 20.
pub fn power_roll(bonus: i32, edge: EdgeState, bane: BaneState) -> (tier: PowerRollResultTier)
    requires
        bonus <= i32::MAX - 22,
    ensures
        exists|natural: int|
            2 <= natural <= 20 && tier == power_tier_of(natural, bonus as int, edge, bane),
{
    let rolls = rolld10s(2);
    let roll_result = rolls[0] + rolls[1];
    let tier = to_power_roll(roll_result, bonus, edge, bane);
    proof {
        assert(2 <= roll_result <= 20);
        assert(tier == power_tier_of(roll_result as int, bonus as int, edge, bane));
    }
    tier
}

} // verus!
