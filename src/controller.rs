//! The per-tick update of cars: following the car ahead within a lane,
//! deciding entry into an intersection, and progress across it.
use vstd::prelude::*;
use crate::common::{AbsoluteDirection, Around, RelativeDirection, TurnRule};

verus! {

/// Length of a car, in the integer distance unit of lanes (decimetres).
pub const CAR_LENGTH: u64 = 45;

/// Completion of a crossing or a lane change, in thousandths.
pub const PROPORTION_DONE: u64 = 1000;

/// Front-bumper positions of the cars of one lane, listed front to back, all
/// within the lane, each car at least a car length behind the one ahead:
/// no two cars overlap.
pub open spec fn spaced(p: Seq<u64>, lane_length: u64) -> bool {
    &&& forall|i: int| 0 <= i < p.len() ==> #[trigger] p[i] <= lane_length
    &&& forall|i: int| 0 < i < p.len() ==> #[trigger] p[i] + CAR_LENGTH <= p[i - 1]
}

/// Where a car at `p` stops this tick: `speed` further on, but no further
/// than `limit`.
pub open spec fn advanced(p: u64, speed: u64, limit: u64) -> u64 {
    if limit <= p {
        p
    } else if limit - p <= speed {
        limit
    } else {
        (p + speed) as u64
    }
}

/// Positions of the first `n` cars of a lane after one tick: the first car
/// stops at the end of the lane, each other one a car length behind where the
/// car ahead ended the tick.
pub open spec fn followed(p: Seq<u64>, lane_length: u64, speed: u64, n: nat) -> Seq<u64>
    decreases n,
{
    if n == 0 {
        seq![]
    } else if n == 1 {
        seq![advanced(p[0], speed, lane_length)]
    } else {
        let prev = followed(p, lane_length, speed, (n - 1) as nat);
        let ahead = prev[n - 2];
        let limit = if ahead >= CAR_LENGTH { (ahead - CAR_LENGTH) as u64 } else { 0u64 };
        prev.push(advanced(p[n - 1], speed, limit))
    }
}

/// Move every car of one lane on by up to `speed`, front to back, without
/// passing the end of the lane or closing up on the car ahead. This works on
/// one lane's positions held apart from the cars. `Simulation::update` does
/// not call it: there every car is bounded a car length behind where the cars
/// ahead stood at the start of the tick (see `following_limit`).
pub fn follow_lane(positions: &mut Vec<u64>, lane_length: u64, speed: u64)
    requires
        spaced(old(positions)@, lane_length),
    ensures
        final(positions)@ == followed(old(positions)@, lane_length, speed, old(positions)@.len()),
        spaced(final(positions)@, lane_length),
        forall|i: int| 0 <= i < old(positions)@.len() ==>
            old(positions)@[i] <= #[trigger] final(positions)@[i] <= old(positions)@[i] + speed,
{
    let ghost start = positions@;
    let n = positions.len();
    let mut i: usize = 0;
    while i < n
        invariant
            n == start.len(),
            positions@.len() == n,
            spaced(start, lane_length),
            i <= n,
            positions@.subrange(0, i as int) == followed(start, lane_length, speed, i as nat),
            forall|k: int| i <= k < n ==> positions@[k] == start[k],
            forall|k: int| 0 <= k < i ==> start[k] <= #[trigger] positions@[k] <= start[k] + speed,
            spaced(positions@.subrange(0, i as int), lane_length),
        decreases n - i,
    {
        let p = positions[i];
        let limit: u64 = if i == 0 {
            lane_length
        } else if positions[i - 1] >= CAR_LENGTH {
            positions[i - 1] - CAR_LENGTH
        } else {
            0
        };
        let q: u64 = if limit <= p {
            p
        } else if limit - p <= speed {
            limit
        } else {
            p + speed
        };
        proof {
            if i > 0 {
                assert(positions@[i - 1] >= start[i - 1]);
                assert(start[i as int] + CAR_LENGTH <= start[i - 1]);
                assert(limit >= p);
            }
        }
        let ghost before = positions@;
        positions.set(i, q);
        proof {
            assert(before.subrange(0, i as int) == followed(start, lane_length, speed, i as nat));
            assert(positions@.subrange(0, i + 1) =~= before.subrange(0, i as int).push(q));
        }
        i = i + 1;
    }
    proof {
        assert(positions@.subrange(0, n as int) =~= positions@);
    }
}

/// In a spaced lane no two cars overlap, not only neighbours: every car is at
/// least a car length behind every car ahead of it.
pub proof fn lemma_spaced_no_overlap(p: Seq<u64>, lane_length: u64, i: int, j: int)
    requires
        spaced(p, lane_length),
        0 <= i < j < p.len(),
    ensures
        p[j] + CAR_LENGTH <= p[i],
    decreases j - i,
{
    if j > i + 1 {
        lemma_spaced_no_overlap(p, lane_length, i, j - 1);
    }
}

/// The side of the intersection from which a car heading `heading` arrives.
pub open spec fn approach_side(heading: AbsoluteDirection) -> AbsoluteDirection {
    heading.turned(RelativeDirection::Back)
}

/// Whether a car heading `heading` at the end of a lane with rule `lane_rule`
/// may enter the intersection to leave it heading `exit`: both the lane's rule
/// and the right of way now granted to its approach side must permit the turn.
pub open spec fn entry_permitted(
    lane_rule: TurnRule,
    current: Around<TurnRule>,
    heading: AbsoluteDirection,
    exit: AbsoluteDirection,
) -> bool {
    let turn = heading.relative_to(exit);
    lane_rule.allows(turn) && current.at(approach_side(heading)).allows(turn)
}

/// Decide whether a car may enter the intersection; see `entry_permitted`.
pub fn may_enter(
    lane_rule: TurnRule,
    current: &Around<TurnRule>,
    heading: AbsoluteDirection,
    exit: AbsoluteDirection,
) -> (r: bool)
    ensures
        r == entry_permitted(lane_rule, *current, heading, exit),
{
    let turn = heading.should_turn(exit);
    let side = heading.turn_opposite();
    lane_rule.permits(turn) && current.get(side).permits(turn)
}

/// Progress, in thousandths, after one tick at `rate` thousandths per tick.
pub fn advance_proportion(proportion: u64, rate: u64) -> (r: u64)
    requires
        proportion <= PROPORTION_DONE,
    ensures
        r == if PROPORTION_DONE - proportion <= rate { PROPORTION_DONE } else { (proportion + rate) as u64 },
        proportion <= r <= PROPORTION_DONE,
{
    if PROPORTION_DONE - proportion <= rate {
        PROPORTION_DONE
    } else {
        proportion + rate
    }
}

} // verus!
