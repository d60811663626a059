//! The mutable simulation state, cars and intersection controllers, and its
//! per-tick update. Every car decides from the state as it stood at the start
//! of the tick; then every controller advances once.
use vstd::prelude::*;
use crate::city::{exit_of, exit_road, flat, lane_end_of, City, GridIndex};
use crate::common::{lane_heading, AbsoluteDirection, AxisDirection, LaneDirection, RelativeDirection, TurnRule};
use crate::controller::{advance_proportion, advanced, approach_side, entry_permitted, may_enter, CAR_LENGTH, PROPORTION_DONE};
use crate::intersection::{next_state, IntersectionController};

verus! {

/// Distance a car covers in one tick on a free lane, in decimetres.
pub const SPEED: u64 = 2;


/// Progress of a lane change per tick, in thousandths.
pub const LANE_CHANGE_RATE: u64 = 50;

/// Where a car is.
#[derive(Copy, Clone, Debug)]
pub enum Location {
    OnLane {
        road_direction: AxisDirection,
        road_index: GridIndex,
        lane_direction: LaneDirection,
        lane_index: usize,
        position: u64,
    },
    ChangingLane {
        road_direction: AxisDirection,
        road_index: GridIndex,
        lane_direction: LaneDirection,
        from_lane_index: usize,
        to_lane_index: usize,
        position: u64,
        lane_changed_proportion: u64,
    },
    /// Crossing the intersection at `intersection_index`, having arrived on
    /// its `from_direction` side and leaving by its `to_direction` side.
    InIntersection {
        intersection_index: GridIndex,
        from_direction: AbsoluteDirection,
        from_lane_index: usize,
        to_direction: AbsoluteDirection,
        to_lane_index: usize,
        in_intersection_proportion: u64,
    },
}

/// A car: where it is, and the turn it makes at every intersection.
#[derive(Copy, Clone, Debug)]
pub struct Car {
    pub location: Location,
    pub intent: RelativeDirection,
}

/// The turn rule of lane `lane` of flow `flow` on road `(axis, x, y)`.
pub open spec fn lane_rule(city: City, axis: AxisDirection, x: int, y: int, flow: LaneDirection, lane: int) -> Option<TurnRule> {
    match city.road(axis, x, y) {
        Some(road) => if 0 <= lane < road.group(flow).len() {
            Some(road.group(flow)[lane].direction_rule)
        } else {
            None
        },
        None => None,
    }
}

/// A move from `before` to `after` enters an intersection only from the end
/// of a lane that ends there, and only when the lane's own turn rule and the
/// right of way that the intersection's controller grants to that side both
/// permit the turn that the move makes, and when the road it leaves by has a
/// lane heading away, which the car takes. It records the side it came from.
pub open spec fn enters_lawfully(city: City, controllers: Seq<IntersectionController>, before: Location, after: Location) -> bool {
    match (before, after) {
        (
            Location::OnLane { road_direction, road_index, lane_direction, lane_index, .. },
            Location::InIntersection { intersection_index, from_direction, from_lane_index, to_direction, to_lane_index, in_intersection_proportion },
        ) => {
            let (i, j) = intersection_index;
            &&& in_intersection_proportion == 0
            &&& from_lane_index == lane_index
            &&& from_direction == approach_side(lane_heading(road_direction, lane_direction))
            &&& lane_end_of(road_direction, road_index.0 as int, road_index.1 as int, lane_direction,
                city.rows_of() as int, city.cols_of() as int) == Some((i as int, j as int))
            &&& lane_rule(city, road_direction, road_index.0 as int, road_index.1 as int, lane_direction, lane_index as int)
                matches Some(rule)
            &&& entry_permitted(
                rule,
                controllers[flat(i as int, j as int, city.cols_of() as int)].table_of(),
                lane_heading(road_direction, lane_direction),
                to_direction,
            )
            &&& ({
                let (a, x, y, f) = exit_of(i as int, j as int, to_direction);
                lane_rule(city, a, x, y, f, to_lane_index as int).is_some()
            })
        },
        (Location::OnLane { .. }, _) => true,
        (_, Location::InIntersection { .. }) => before is InIntersection,
        _ => true,
    }
}

/// Whether car `c` is in lane `lane` of `flow` on road `(axis, index)`, at or
/// ahead of `position`.
pub open spec fn is_ahead(c: Car, axis: AxisDirection, index: GridIndex, flow: LaneDirection, lane: usize, position: u64) -> bool {
    c.location matches Location::OnLane { road_direction, road_index, lane_direction, lane_index, position: p }
        && road_direction == axis && road_index == index && lane_direction == flow && lane_index == lane && p >= position
}

/// Whether car `c` is in lane `lane` of `flow` on road `(axis, index)`, or
/// changing into it, too close to `position` for a car to join there this
/// tick: less than a car length ahead of it, or less than a car length plus
/// one tick's travel behind it.
pub open spec fn near(c: Car, axis: AxisDirection, index: GridIndex, flow: LaneDirection, lane: usize, position: u64) -> bool {
    match c.location {
        Location::OnLane { road_direction, road_index, lane_direction, lane_index, position: p } =>
            road_direction == axis && road_index == index && lane_direction == flow && lane_index == lane
                && position < p + CAR_LENGTH + SPEED && p < position + CAR_LENGTH,
        Location::ChangingLane { road_direction, road_index, lane_direction, to_lane_index, position: p, .. } =>
            road_direction == axis && road_index == index && lane_direction == flow && to_lane_index == lane
                && position < p + CAR_LENGTH + SPEED && p < position + CAR_LENGTH,
        Location::InIntersection { .. } => false,
    }
}

/// Whether no car of `cars` but car `k` is `near` `position` in the lane.
pub open spec fn lane_clear(cars: Seq<Car>, k: int, axis: AxisDirection, index: GridIndex, flow: LaneDirection, lane: usize, position: u64) -> bool {
    forall|j: int| 0 <= j < cars.len() && j != k ==> !near(#[trigger] cars[j], axis, index, flow, lane, position)
}

/// See `lane_clear`.
fn is_lane_clear(cars: &Vec<Car>, k: usize, axis: AxisDirection, index: GridIndex, flow: LaneDirection, lane: usize, position: u64) -> (r: bool)
    ensures
        r == lane_clear(cars@, k as int, axis, index, flow, lane, position),
{
    let mut j: usize = 0;
    while j < cars.len()
        invariant
            j <= cars@.len(),
            forall|m: int| 0 <= m < j && m != k ==> !near(#[trigger] cars@[m], axis, index, flow, lane, position),
        decreases cars@.len() - j,
    {
        let place = match cars[j].location {
            Location::OnLane { road_direction, road_index, lane_direction, lane_index, position: p } =>
                Some((road_direction, road_index, lane_direction, lane_index, p)),
            Location::ChangingLane { road_direction, road_index, lane_direction, to_lane_index, position: p, .. } =>
                Some((road_direction, road_index, lane_direction, to_lane_index, p)),
            Location::InIntersection { .. } => None,
        };
        if let Some((a, x, f, l, p)) = place {
            let close = if position >= p {
                position - p < CAR_LENGTH + SPEED
            } else {
                p - position < CAR_LENGTH
            };
            if j != k && a == axis && x.0 == index.0 && x.1 == index.1 && f == flow && l == lane && close {
                return false;
            }
        }
        j = j + 1;
    }
    true
}

/// The distance across the intersection at `cell` for a car arriving on its
/// `from` side: its north-south extent for a car from the north or south, its
/// east-west extent otherwise; 0 off the board.
pub open spec fn crossing_distance(city: City, cell: GridIndex, from: AbsoluteDirection) -> nat {
    if cell.0 < city.rows_of() && cell.1 < city.cols_of() {
        let g = city.geometry_at(cell.0 as int, cell.1 as int);
        match from {
            AbsoluteDirection::North | AbsoluteDirection::South => g.height as nat,
            _ => g.width as nat,
        }
    } else {
        0
    }
}

/// Progress across an intersection per tick, in thousandths, for a crossing of
/// `distance` decimetres at `SPEED`: at least 1, and the whole crossing in one
/// tick when there is no distance to cover.
pub open spec fn crossing_rate(distance: nat) -> u64 {
    if distance == 0 {
        PROPORTION_DONE
    } else if (PROPORTION_DONE * SPEED) as int / distance as int == 0 {
        1
    } else {
        ((PROPORTION_DONE * SPEED) as int / distance as int) as u64
    }
}

/// The rate of a crossing of the intersection at `cell` from side `from`.
pub fn rate_of_crossing(city: &City, cell: GridIndex, from: AbsoluteDirection) -> (r: u64)
    requires
        city.wf(),
    ensures
        r == crossing_rate(crossing_distance(*city, cell, from)),
{
    let distance: u64 = match city.intersection_geometry(cell) {
        Some(g) => match from {
            AbsoluteDirection::North | AbsoluteDirection::South => g.height,
            _ => g.width,
        },
        None => 0,
    };
    if distance == 0 {
        PROPORTION_DONE
    } else if PROPORTION_DONE * SPEED / distance == 0 {
        1
    } else {
        PROPORTION_DONE * SPEED / distance
    }
}

/// Whether car `c` finishes, this tick, a crossing of intersection `cell` that
/// leaves by side `to` into lane `lane` there.
pub open spec fn finishing_into(city: City, c: Car, cell: GridIndex, to: AbsoluteDirection, lane: usize) -> bool {
    c.location matches Location::InIntersection { intersection_index, from_direction, to_direction, to_lane_index, in_intersection_proportion, .. }
        && intersection_index == cell && to_direction == to && to_lane_index == lane
        && in_intersection_proportion <= PROPORTION_DONE
        && PROPORTION_DONE - in_intersection_proportion <= crossing_rate(crossing_distance(city, cell, from_direction))
}

/// Whether no car before car `k` finishes a crossing into the same exit lane
/// this tick: of two such cars, the one listed first goes first.
pub open spec fn first_to_finish(city: City, cars: Seq<Car>, k: int, cell: GridIndex, to: AbsoluteDirection, lane: usize) -> bool {
    forall|j: int| 0 <= j < k ==> !finishing_into(city, #[trigger] cars[j], cell, to, lane)
}

/// See `first_to_finish`.
fn is_first_to_finish(city: &City, cars: &Vec<Car>, k: usize, cell: GridIndex, to: AbsoluteDirection, lane: usize) -> (r: bool)
    requires
        city.wf(),
        k <= cars@.len(),
    ensures
        r == first_to_finish(*city, cars@, k as int, cell, to, lane),
{
    let mut j: usize = 0;
    while j < k
        invariant
            k <= cars@.len(),
            j <= k,
            city.wf(),
            first_to_finish(*city, cars@, j as int, cell, to, lane),
        decreases k - j,
    {
        if let Location::InIntersection { intersection_index, from_direction, to_direction, to_lane_index, in_intersection_proportion, .. } = cars[j].location {
            if intersection_index.0 == cell.0 && intersection_index.1 == cell.1 && to_direction == to && to_lane_index == lane
                && in_intersection_proportion <= PROPORTION_DONE
                && PROPORTION_DONE - in_intersection_proportion <= rate_of_crossing(city, cell, from_direction) {
                return false;
            }
        }
        j = j + 1;
    }
    true
}

/// Whether car `c` finishes, this tick, a lane change into lane `lane` of
/// `flow` on road `(axis, index)`.
pub open spec fn changing_into(c: Car, axis: AxisDirection, index: GridIndex, flow: LaneDirection, lane: usize) -> bool {
    c.location matches Location::ChangingLane { road_direction, road_index, lane_direction, to_lane_index, lane_changed_proportion, .. }
        && road_direction == axis && road_index == index && lane_direction == flow && to_lane_index == lane
        && lane_changed_proportion <= PROPORTION_DONE && PROPORTION_DONE - lane_changed_proportion <= LANE_CHANGE_RATE
}

/// Whether no car before car `k` finishes a lane change into the same lane
/// this tick.
pub open spec fn first_to_change(cars: Seq<Car>, k: int, axis: AxisDirection, index: GridIndex, flow: LaneDirection, lane: usize) -> bool {
    forall|j: int| 0 <= j < k ==> !changing_into(#[trigger] cars[j], axis, index, flow, lane)
}

/// See `first_to_change`.
fn is_first_to_change(cars: &Vec<Car>, k: usize, axis: AxisDirection, index: GridIndex, flow: LaneDirection, lane: usize) -> (r: bool)
    requires
        k <= cars@.len(),
    ensures
        r == first_to_change(cars@, k as int, axis, index, flow, lane),
{
    let mut j: usize = 0;
    while j < k
        invariant
            k <= cars@.len(),
            j <= k,
            first_to_change(cars@, j as int, axis, index, flow, lane),
        decreases k - j,
    {
        if let Location::ChangingLane { road_direction, road_index, lane_direction, to_lane_index, lane_changed_proportion, .. } = cars[j].location {
            if road_direction == axis && road_index.0 == index.0 && road_index.1 == index.1 && lane_direction == flow
                && to_lane_index == lane && lane_changed_proportion <= PROPORTION_DONE
                && PROPORTION_DONE - lane_changed_proportion <= LANE_CHANGE_RATE {
                return false;
            }
        }
        j = j + 1;
    }
    true
}

/// The bound that car `j` at `p` puts on a car behind it: a car length behind
/// it, or 0 if it is within a car length of the lane's start.
pub open spec fn bound_behind(p: u64) -> u64 {
    if p >= CAR_LENGTH { (p - CAR_LENGTH) as u64 } else { 0 }
}

/// How far the car at `k`, on lane `lane` at `position`, may go this tick,
/// looking at the first `n` cars: the least of `lane_length` and
/// `bound_behind` of every other of them at or ahead of it in the same lane.
pub open spec fn following_limit(
    cars: Seq<Car>,
    k: int,
    axis: AxisDirection,
    index: GridIndex,
    flow: LaneDirection,
    lane: usize,
    position: u64,
    lane_length: u64,
    n: nat,
) -> u64
    decreases n,
{
    if n == 0 {
        lane_length
    } else {
        let prev = following_limit(cars, k, axis, index, flow, lane, position, lane_length, (n - 1) as nat);
        let j = n - 1;
        if j != k && is_ahead(cars[j], axis, index, flow, lane, position)
            && bound_behind(cars[j].location->OnLane_position) < prev {
            bound_behind(cars[j].location->OnLane_position)
        } else {
            prev
        }
    }
}

/// How far the car at `k`, on lane `lane` at `position`, may go this tick:
/// the end of the lane, at `lane_length`, and a car length behind every other
/// car at or ahead of it in the same lane.
fn lane_limit(
    cars: &Vec<Car>,
    k: usize,
    axis: AxisDirection,
    index: GridIndex,
    flow: LaneDirection,
    lane: usize,
    position: u64,
    lane_length: u64,
) -> (r: u64)
    ensures
        r == following_limit(cars@, k as int, axis, index, flow, lane, position, lane_length, cars@.len()),
        r <= lane_length,
        forall|j: int| 0 <= j < cars@.len() && j != k && is_ahead(#[trigger] cars@[j], axis, index, flow, lane, position) ==>
            (r == 0 || r + CAR_LENGTH <= cars@[j].location->OnLane_position),
{
    let mut limit: u64 = lane_length;
    let mut j: usize = 0;
    while j < cars.len()
        invariant
            j <= cars@.len(),
            limit <= lane_length,
            limit == following_limit(cars@, k as int, axis, index, flow, lane, position, lane_length, j as nat),
            forall|m: int| 0 <= m < j && m != k && is_ahead(#[trigger] cars@[m], axis, index, flow, lane, position) ==>
                (limit == 0 || limit + CAR_LENGTH <= cars@[m].location->OnLane_position),
        decreases cars@.len() - j,
    {
        if j != k {
            if let Location::OnLane { road_direction, road_index, lane_direction, lane_index, position: p } = cars[j].location {
                if road_direction == axis && road_index.0 == index.0 && road_index.1 == index.1 && lane_direction == flow && lane_index == lane && p >= position {
                    let bound: u64 = if p >= CAR_LENGTH { p - CAR_LENGTH } else { 0 };
                    if bound < limit {
                        limit = bound;
                    }
                }
            }
        }
        j = j + 1;
    }
    limit
}

/// Whether lane `lane` of `flow` on road `(axis, index)` permits `turn`.
fn lane_permits(city: &City, axis: AxisDirection, index: GridIndex, flow: LaneDirection, lane: usize, turn: RelativeDirection) -> (r: Option<TurnRule>)
    requires
        city.wf(),
    ensures
        r == lane_rule(*city, axis, index.0 as int, index.1 as int, flow, lane as int),
{
    proof {
        city.lemma_wf_sized();
    }
    match city.road_at(axis, index) {
        Some(road) => {
            let lanes = road.lanes_to_direction(flow);
            if lane < lanes.len() {
                Some(lanes[lane].direction_rule)
            } else {
                None
            }
        },
        None => None,
    }
}

/// A car enters an intersection only when both its lane's turn rule and the
/// right of way then granted to its approach side permit the turn it makes.
pub proof fn lemma_entry_needs_both_permissions(
    city: City,
    controllers: Seq<IntersectionController>,
    before: Location,
    after: Location,
)
    requires
        enters_lawfully(city, controllers, before, after),
        before is OnLane,
        after is InIntersection,
    ensures
        ({
            let heading = lane_heading(before->OnLane_road_direction, before->OnLane_lane_direction);
            let turn = heading.relative_to(after->InIntersection_to_direction);
            let cell = after->InIntersection_intersection_index;
            let table = controllers[flat(cell.0 as int, cell.1 as int, city.cols_of() as int)].table_of();
            &&& lane_rule(city, before->OnLane_road_direction, before->OnLane_road_index.0 as int,
                before->OnLane_road_index.1 as int, before->OnLane_lane_direction, before->OnLane_lane_index as int)
                matches Some(rule) && rule.allows(turn)
            &&& table.at(heading.turned(RelativeDirection::Back)).allows(turn)
        }),
{
}

/// Whether lane `lane` of `flow` on road `(axis, x, y)` exists and allows `turn`.
pub open spec fn lane_allows(city: City, axis: AxisDirection, x: int, y: int, flow: LaneDirection, lane: int, turn: RelativeDirection) -> bool {
    match lane_rule(city, axis, x, y, flow, lane) {
        Some(rule) => rule.allows(turn),
        None => false,
    }
}

/// The exact location, after this tick, of car `k`, which is on a lane:
/// - on a road that does not exist, it stays;
/// - short of the lane's end it moves on by `SPEED`, up to `following_limit`;
/// - at the lane's end it enters the intersection there, toward the side its
///   intent leads to, when that side has a lane leading away and
///   `entry_permitted` holds;
/// - else, when its lane forbids its intent, it starts changing into the lane
///   above, or else the one below, that exists, allows its intent and is clear
///   beside it;
/// - else it waits.
pub open spec fn on_lane_step(city: City, controllers: Seq<IntersectionController>, cars: Seq<Car>, k: int) -> Location {
    let loc = cars[k].location;
    let intent = cars[k].intent;
    let a = loc->OnLane_road_direction;
    let x = loc->OnLane_road_index;
    let f = loc->OnLane_lane_direction;
    let l = loc->OnLane_lane_index;
    let position = loc->OnLane_position;
    if city.road(a, x.0 as int, x.1 as int) is None {
        loc
    } else if position < city.length_of(a, x.0 as int, x.1 as int) {
        let length = city.length_of(a, x.0 as int, x.1 as int) as u64;
        Location::OnLane {
            road_direction: a,
            road_index: x,
            lane_direction: f,
            lane_index: l,
            position: advanced(position, SPEED, following_limit(cars, k, a, x, f, l, position, length, cars.len())),
        }
    } else {
        match lane_rule(city, a, x.0 as int, x.1 as int, f, l as int) {
            None => loc,
            Some(rule) => match lane_end_of(a, x.0 as int, x.1 as int, f, city.rows_of() as int, city.cols_of() as int) {
                None => loc,
                Some((i, j)) => {
                    let heading = lane_heading(a, f);
                    let exit = heading.turned(intent);
                    let (ea, ex, ey, ef) = exit_of(i, j, exit);
                    let open = ex <= usize::MAX && ey <= usize::MAX && lane_rule(city, ea, ex, ey, ef, 0).is_some();
                    let table = controllers[flat(i, j, city.cols_of() as int)].table_of();
                    if open && entry_permitted(rule, table, heading, exit) {
                        Location::InIntersection {
                            intersection_index: (i as usize, j as usize),
                            from_direction: approach_side(heading),
                            from_lane_index: l,
                            to_direction: exit,
                            to_lane_index: 0,
                            in_intersection_proportion: 0,
                        }
                    } else if !rule.allows(intent) && l + 1 <= usize::MAX
                        && lane_allows(city, a, x.0 as int, x.1 as int, f, l + 1, intent)
                        && lane_clear(cars, k, a, x, f, (l + 1) as usize, position) {
                        Location::ChangingLane {
                            road_direction: a,
                            road_index: x,
                            lane_direction: f,
                            from_lane_index: l,
                            to_lane_index: (l + 1) as usize,
                            position,
                            lane_changed_proportion: 0,
                        }
                    } else if !rule.allows(intent) && l > 0
                        && lane_allows(city, a, x.0 as int, x.1 as int, f, l - 1, intent)
                        && lane_clear(cars, k, a, x, f, (l - 1) as usize, position) {
                        Location::ChangingLane {
                            road_direction: a,
                            road_index: x,
                            lane_direction: f,
                            from_lane_index: l,
                            to_lane_index: (l - 1) as usize,
                            position,
                            lane_changed_proportion: 0,
                        }
                    } else {
                        loc
                    }
                },
            },
        }
    }
}

/// What one tick does to car `k`, deciding from `cars` and `controllers`
/// as they stand at the start of the tick, when it ends at `r`. A car on a
/// lane ends exactly at `on_lane_step`. It enters an intersection only
/// lawfully. A car on a lane leaves it only from the lane's
/// end: into the intersection, or into a lane change where it stands. Else it
/// stays in its lane, moving on by at most `SPEED`; if it moves, it ends at
/// least a car length behind every other car that was at or ahead of it in
/// that lane. A lane change starts only where the target lane is clear. A lane
/// change or a crossing advances by its rate; when done, it puts the car on
/// the new lane where it stands, or at the start of the lane it chose on the
/// exit road, if that place is clear and no car listed before it joins that
/// lane the same way on the same tick; else the car waits, its change or
/// crossing complete.
pub open spec fn stepped(city: City, controllers: Seq<IntersectionController>, cars: Seq<Car>, k: int, r: Location) -> bool {
    &&& enters_lawfully(city, controllers, cars[k].location, r)
    &&& cars[k].location is OnLane ==> r == on_lane_step(city, controllers, cars, k)
    &&& cars[k].location matches Location::OnLane { road_direction, road_index, lane_direction, lane_index, position } ==> {
        &&& (r is InIntersection || r is ChangingLane) ==> position >= city.length_of(road_direction, road_index.0 as int, road_index.1 as int)
        &&& {
            ||| r matches Location::InIntersection { from_lane_index, .. } && from_lane_index == lane_index
            ||| r matches Location::ChangingLane { road_direction: a, road_index: x, lane_direction: f, from_lane_index: l, to_lane_index: t, position: p, lane_changed_proportion: c }
                && a == road_direction && x == road_index && f == lane_direction && l == lane_index && p == position && c == 0
                && lane_clear(cars, k, a, x, f, t, p)
            ||| r matches Location::OnLane { road_direction: a, road_index: x, lane_direction: f, lane_index: l, position: p }
                && a == road_direction && x == road_index && f == lane_direction && l == lane_index
                && position <= p <= position + SPEED
                && (p == position || forall|j: int| 0 <= j < cars.len() && j != k
                    && is_ahead(#[trigger] cars[j], road_direction, road_index, lane_direction, lane_index, position)
                    ==> p + CAR_LENGTH <= cars[j].location->OnLane_position)
        }
    }
    &&& cars[k].location matches Location::ChangingLane { road_direction, road_index, lane_direction, from_lane_index, to_lane_index, position, lane_changed_proportion } ==> {
        ||| lane_changed_proportion > PROPORTION_DONE && r == cars[k].location
        ||| lane_changed_proportion <= PROPORTION_DONE && PROPORTION_DONE - lane_changed_proportion <= LANE_CHANGE_RATE
            && lane_clear(cars, k, road_direction, road_index, lane_direction, to_lane_index, position)
            && first_to_change(cars, k, road_direction, road_index, lane_direction, to_lane_index)
            && r == (Location::OnLane { road_direction, road_index, lane_direction, lane_index: to_lane_index, position })
        ||| lane_changed_proportion <= PROPORTION_DONE && PROPORTION_DONE - lane_changed_proportion <= LANE_CHANGE_RATE
            && !(lane_clear(cars, k, road_direction, road_index, lane_direction, to_lane_index, position)
                && first_to_change(cars, k, road_direction, road_index, lane_direction, to_lane_index))
            && r == (Location::ChangingLane { road_direction, road_index, lane_direction, from_lane_index, to_lane_index, position,
                lane_changed_proportion: PROPORTION_DONE })
        ||| lane_changed_proportion <= PROPORTION_DONE && PROPORTION_DONE - lane_changed_proportion > LANE_CHANGE_RATE
            && r == (Location::ChangingLane { road_direction, road_index, lane_direction, from_lane_index, to_lane_index, position,
                lane_changed_proportion: (lane_changed_proportion + LANE_CHANGE_RATE) as u64 })
    }
    &&& cars[k].location matches Location::InIntersection { intersection_index, from_direction, from_lane_index, to_direction, to_lane_index, in_intersection_proportion } ==> {
        let rate = crossing_rate(crossing_distance(city, intersection_index, from_direction));
        ||| in_intersection_proportion > PROPORTION_DONE && r == cars[k].location
        ||| in_intersection_proportion <= PROPORTION_DONE && PROPORTION_DONE - in_intersection_proportion > rate
            && r == (Location::InIntersection { intersection_index, from_direction, from_lane_index, to_direction, to_lane_index,
                in_intersection_proportion: (in_intersection_proportion + rate) as u64 })
        ||| in_intersection_proportion <= PROPORTION_DONE && PROPORTION_DONE - in_intersection_proportion <= rate && {
            let (a, x, y, f) = exit_of(intersection_index.0 as int, intersection_index.1 as int, to_direction);
            ||| r matches Location::OnLane { road_direction, road_index, lane_direction, lane_index, position }
                && road_direction == a && road_index.0 == x && road_index.1 == y && lane_direction == f
                && lane_index == to_lane_index && position == 0
                && lane_clear(cars, k, road_direction, road_index, lane_direction, lane_index, 0)
                && first_to_finish(city, cars, k, intersection_index, to_direction, to_lane_index)
            ||| x <= usize::MAX && y <= usize::MAX
                && !(lane_clear(cars, k, a, (x as usize, y as usize), f, to_lane_index, 0)
                    && first_to_finish(city, cars, k, intersection_index, to_direction, to_lane_index))
                && r == (Location::InIntersection { intersection_index, from_direction, from_lane_index, to_direction, to_lane_index,
                    in_intersection_proportion: PROPORTION_DONE })
            ||| r == cars[k].location && (x > usize::MAX || y > usize::MAX)
        }
    }
}

/// The location after this tick of car `k`, which is on a lane; see
/// `on_lane_step`.
fn step_on_lane(city: &City, controllers: &Vec<IntersectionController>, cars: &Vec<Car>, k: usize) -> (r: Location)
    requires
        city.wf(),
        controllers@.len() == city.rows_of() * city.cols_of(),
        k < cars@.len(),
        cars@[k as int].location is OnLane,
    ensures
        stepped(*city, controllers@, cars@, k as int, r),
{
    let car = cars[k];
    let Location::OnLane { road_direction, road_index, lane_direction, lane_index, position } = car.location else {
        return car.location;
    };
    let length = match city.road_length(road_direction, road_index) {
        Some(length) => length,
        None => return car.location,
    };
    if position < length {
        let limit = lane_limit(cars, k, road_direction, road_index, lane_direction, lane_index, position, length);
        let p: u64 = if limit <= position {
            position
        } else if limit - position <= SPEED {
            limit
        } else {
            position + SPEED
        };
        return Location::OnLane { road_direction, road_index, lane_direction, lane_index, position: p };
    }
    let rule = match lane_permits(city, road_direction, road_index, lane_direction, lane_index, car.intent) {
        Some(rule) => rule,
        None => return car.location,
    };
    let cell = match city.lane_end(road_direction, road_index, lane_direction) {
        Some(cell) => cell,
        None => return car.location,
    };
    let heading = AbsoluteDirection::of_lane(road_direction, lane_direction);
    let exit = heading.turn(car.intent);
    let (ci, cj) = cell;
    proof {
        crate::city::lemma_flat_bounds(ci as int, cj as int, city.rows_of() as int, city.cols_of() as int);
    }
    // The table length is a usize, so the flat position fits in one.
    let _len = controllers.len();
    let slot = ci * city.cols() + cj;
    let table = controllers[slot].current();
    let exit_open = match exit_road(cell, exit) {
        Some((axis, index, flow)) => lane_permits(city, axis, index, flow, 0, car.intent).is_some(),
        None => false,
    };
    if exit_open && may_enter(rule, &table, heading, exit) {
        return Location::InIntersection {
            intersection_index: cell,
            from_direction: heading.turn_opposite(),
            from_lane_index: lane_index,
            to_direction: exit,
            to_lane_index: 0,
            in_intersection_proportion: 0,
        };
    }
    if !rule.permits(car.intent) {
        if let Some(next) = lane_index.checked_add(1) {
            if let Some(other) = lane_permits(city, road_direction, road_index, lane_direction, next, car.intent) {
                if other.permits(car.intent)
                    && is_lane_clear(cars, k, road_direction, road_index, lane_direction, next, position) {
                    return Location::ChangingLane {
                        road_direction,
                        road_index,
                        lane_direction,
                        from_lane_index: lane_index,
                        to_lane_index: next,
                        position,
                        lane_changed_proportion: 0,
                    };
                }
            }
        }
        if lane_index > 0 {
            if let Some(other) = lane_permits(city, road_direction, road_index, lane_direction, lane_index - 1, car.intent) {
                if other.permits(car.intent)
                    && is_lane_clear(cars, k, road_direction, road_index, lane_direction, lane_index - 1, position) {
                    return Location::ChangingLane {
                        road_direction,
                        road_index,
                        lane_direction,
                        from_lane_index: lane_index,
                        to_lane_index: lane_index - 1,
                        position,
                        lane_changed_proportion: 0,
                    };
                }
            }
        }
    }
    car.location
}

/// The location of car `k` after this tick, decided from the state as it
/// stood at the start of the tick.
pub fn step_car(city: &City, controllers: &Vec<IntersectionController>, cars: &Vec<Car>, k: usize) -> (r: Location)
    requires
        city.wf(),
        controllers@.len() == city.rows_of() * city.cols_of(),
        k < cars@.len(),
    ensures
        stepped(*city, controllers@, cars@, k as int, r),
{
    let car = cars[k];
    match car.location {
        Location::OnLane { .. } => step_on_lane(city, controllers, cars, k),
        Location::ChangingLane {
            road_direction,
            road_index,
            lane_direction,
            from_lane_index,
            to_lane_index,
            position,
            lane_changed_proportion,
        } => {
            if lane_changed_proportion > PROPORTION_DONE {
                return car.location;
            }
            let done = advance_proportion(lane_changed_proportion, LANE_CHANGE_RATE);
            if done == PROPORTION_DONE {
                if is_lane_clear(cars, k, road_direction, road_index, lane_direction, to_lane_index, position)
                    && is_first_to_change(cars, k, road_direction, road_index, lane_direction, to_lane_index) {
                    Location::OnLane { road_direction, road_index, lane_direction, lane_index: to_lane_index, position }
                } else {
                    Location::ChangingLane {
                        road_direction,
                        road_index,
                        lane_direction,
                        from_lane_index,
                        to_lane_index,
                        position,
                        lane_changed_proportion: PROPORTION_DONE,
                    }
                }
            } else {
                Location::ChangingLane {
                    road_direction,
                    road_index,
                    lane_direction,
                    from_lane_index,
                    to_lane_index,
                    position,
                    lane_changed_proportion: done,
                }
            }
        },
        Location::InIntersection {
            intersection_index,
            from_direction,
            from_lane_index,
            to_direction,
            to_lane_index,
            in_intersection_proportion,
        } => {
            if in_intersection_proportion > PROPORTION_DONE {
                return car.location;
            }
            let rate = rate_of_crossing(city, intersection_index, from_direction);
            let done = advance_proportion(in_intersection_proportion, rate);
            if done < PROPORTION_DONE {
                return Location::InIntersection {
                    intersection_index,
                    from_direction,
                    from_lane_index,
                    to_direction,
                    to_lane_index,
                    in_intersection_proportion: done,
                };
            }
            match exit_road(intersection_index, to_direction) {
                Some((axis, index, flow)) => if is_lane_clear(cars, k, axis, index, flow, to_lane_index, 0)
                    && is_first_to_finish(city, cars, k, intersection_index, to_direction, to_lane_index) {
                    Location::OnLane { road_direction: axis, road_index: index, lane_direction: flow, lane_index: to_lane_index, position: 0 }
                } else {
                    Location::InIntersection {
                        intersection_index,
                        from_direction,
                        from_lane_index,
                        to_direction,
                        to_lane_index,
                        in_intersection_proportion: PROPORTION_DONE,
                    }
                },
                None => car.location,
            }
        },
    }
}

/// Whether `loc` is on the same lane as `lane`, a location on a lane.
pub open spec fn in_lane(loc: Location, lane: Location) -> bool {
    &&& loc is OnLane
    &&& loc->OnLane_road_direction == lane->OnLane_road_direction
    &&& loc->OnLane_road_index == lane->OnLane_road_index
    &&& loc->OnLane_lane_direction == lane->OnLane_lane_direction
    &&& loc->OnLane_lane_index == lane->OnLane_lane_index
}

/// Whether `a` and `b` are both on the same lane.
pub open spec fn share_lane(a: Location, b: Location) -> bool {
    a is OnLane && b is OnLane && in_lane(a, b)
}

/// No two cars on the same lane overlap: each is at least a car length from
/// the other.
pub open spec fn apart(cars: Seq<Car>) -> bool {
    forall|j: int, k: int| 0 <= j < cars.len() && 0 <= k < cars.len() && j != k
        && #[trigger] share_lane(cars[j].location, cars[k].location) ==>
        cars[j].location->OnLane_position + CAR_LENGTH <= cars[k].location->OnLane_position
            || cars[k].location->OnLane_position + CAR_LENGTH <= cars[j].location->OnLane_position
}

/// Two cars that end a tick on the same lane are at least a car length apart,
/// whatever each did during the tick.
proof fn lemma_pair_apart(
    city: City,
    controllers: Seq<IntersectionController>,
    before: Seq<Car>,
    after: Seq<Car>,
    j: int,
    k: int,
)
    requires
        before.len() == after.len(),
        forall|m: int| 0 <= m < before.len() ==> stepped(city, controllers, before, m, (#[trigger] after[m]).location),
        apart(before),
        0 <= j < before.len(),
        0 <= k < before.len(),
        j < k,
        share_lane(after[j].location, after[k].location),
    ensures
        after[j].location->OnLane_position + CAR_LENGTH <= after[k].location->OnLane_position
            || after[k].location->OnLane_position + CAR_LENGTH <= after[j].location->OnLane_position,
{
    let bj = before[j].location;
    let bk = before[k].location;
    assert(stepped(city, controllers, before, j, after[j].location));
    assert(stepped(city, controllers, before, k, after[k].location));
    match (bj, bk) {
        (Location::OnLane { .. }, Location::OnLane { .. }) => {
            assert(share_lane(bj, bk));
            if bj->OnLane_position >= bk->OnLane_position {
                assert(is_ahead(before[j], bk->OnLane_road_direction, bk->OnLane_road_index, bk->OnLane_lane_direction,
                    bk->OnLane_lane_index, bk->OnLane_position));
            } else {
                assert(is_ahead(before[k], bj->OnLane_road_direction, bj->OnLane_road_index, bj->OnLane_lane_direction,
                    bj->OnLane_lane_index, bj->OnLane_position));
            }
        },
        (Location::OnLane { .. }, _) => {
            assert(!near(before[j], after[k].location->OnLane_road_direction, after[k].location->OnLane_road_index,
                after[k].location->OnLane_lane_direction, after[k].location->OnLane_lane_index, after[k].location->OnLane_position));
        },
        (_, Location::OnLane { .. }) => {
            assert(!near(before[k], after[j].location->OnLane_road_direction, after[j].location->OnLane_road_index,
                after[j].location->OnLane_lane_direction, after[j].location->OnLane_lane_index, after[j].location->OnLane_position));
        },
        (Location::InIntersection { .. }, Location::InIntersection { .. }) => {
            assert(finishing_into(city, before[j], bk->InIntersection_intersection_index, bk->InIntersection_to_direction,
                bk->InIntersection_to_lane_index));
        },
        (Location::ChangingLane { .. }, Location::ChangingLane { .. }) => {
            assert(changing_into(before[j], bk->ChangingLane_road_direction, bk->ChangingLane_road_index,
                bk->ChangingLane_lane_direction, bk->ChangingLane_to_lane_index));
        },
        (Location::InIntersection { .. }, Location::ChangingLane { .. }) => {
            assert(!near(before[k], after[j].location->OnLane_road_direction, after[j].location->OnLane_road_index,
                after[j].location->OnLane_lane_direction, after[j].location->OnLane_lane_index, 0));
        },
        (Location::ChangingLane { .. }, Location::InIntersection { .. }) => {
            assert(!near(before[j], after[k].location->OnLane_road_direction, after[k].location->OnLane_road_index,
                after[k].location->OnLane_lane_direction, after[k].location->OnLane_lane_index, 0));
        },
    }
}

/// No collision within a lane: if no two cars on the same lane overlap at
/// the start of a tick, none do at its end.
pub proof fn lemma_tick_keeps_cars_apart(
    city: City,
    controllers: Seq<IntersectionController>,
    before: Seq<Car>,
    after: Seq<Car>,
)
    requires
        before.len() == after.len(),
        forall|m: int| 0 <= m < before.len() ==> stepped(city, controllers, before, m, (#[trigger] after[m]).location),
        apart(before),
    ensures
        apart(after),
{
    assert forall|j: int, k: int| 0 <= j < after.len() && 0 <= k < after.len() && j != k
        && #[trigger] share_lane(after[j].location, after[k].location) implies
        after[j].location->OnLane_position + CAR_LENGTH <= after[k].location->OnLane_position
            || after[k].location->OnLane_position + CAR_LENGTH <= after[j].location->OnLane_position by {
        if j < k {
            lemma_pair_apart(city, controllers, before, after, j, k);
        } else {
            assert(share_lane(after[k].location, after[j].location));
            lemma_pair_apart(city, controllers, before, after, k, j);
        }
    }
}

/// The moving parts of the simulation: the cars, and one signal controller
/// for each cell of the city, listed row by row.
#[derive(Clone, Debug)]
pub struct Simulation {
    cars: Vec<Car>,
    controllers: Vec<IntersectionController>,
}

impl Simulation {
    pub closed spec fn cars_of(self) -> Seq<Car> {
        self.cars@
    }

    pub closed spec fn controllers_of(self) -> Seq<IntersectionController> {
        self.controllers@
    }

    /// One well-formed controller for each cell of `city`, of that cell's shape.
    pub open spec fn fits(self, city: City) -> bool {
        &&& self.controllers_of().len() == city.rows_of() * city.cols_of()
        &&& forall|m: int| 0 <= m < self.controllers_of().len() ==> (#[trigger] self.controllers_of()[m]).wf()
        &&& forall|i: int, j: int| 0 <= i < city.rows_of() && 0 <= j < city.cols_of() ==>
            (#[trigger] self.controllers_of()[flat(i, j, city.cols_of() as int)]).shape_of() == city.shape_at(i, j)
    }

    /// The simulation of `cars` on `city`, every controller at the start of
    /// its first phase.
    pub fn new(city: &City, cars: Vec<Car>) -> (r: Simulation)
        requires
            city.wf(),
        ensures
            r.fits(*city),
            r.cars_of() == cars@,
            forall|m: int| 0 <= m < r.controllers_of().len() ==> (#[trigger] r.controllers_of()[m]).phase_of() == 0
                && r.controllers_of()[m].timer_of() == crate::intersection::PHASE_TICKS,
    {
        let rows = city.rows();
        let cols = city.cols();
        let mut controllers: Vec<IntersectionController> = Vec::new();
        let mut i: usize = 0;
        while i < rows
            invariant
                city.wf(),
                rows == city.rows_of(),
                cols == city.cols_of(),
                i <= rows,
                controllers@.len() == i * cols,
                forall|m: int| 0 <= m < controllers@.len() ==> (#[trigger] controllers@[m]).wf()
                    && controllers@[m].phase_of() == 0 && controllers@[m].timer_of() == crate::intersection::PHASE_TICKS,
                forall|a: int, b: int| 0 <= a < i && 0 <= b < cols ==>
                    (#[trigger] controllers@[flat(a, b, cols as int)]).shape_of() == city.shape_at(a, b),
            decreases rows - i,
        {
            let mut j: usize = 0;
            while j < cols
                invariant
                    city.wf(),
                    rows == city.rows_of(),
                    cols == city.cols_of(),
                    i < rows,
                    j <= cols,
                    controllers@.len() == i * cols + j,
                    forall|m: int| 0 <= m < controllers@.len() ==> (#[trigger] controllers@[m]).wf()
                        && controllers@[m].phase_of() == 0 && controllers@[m].timer_of() == crate::intersection::PHASE_TICKS,
                    forall|a: int, b: int| 0 <= a < i && 0 <= b < cols ==>
                        (#[trigger] controllers@[flat(a, b, cols as int)]).shape_of() == city.shape_at(a, b),
                    forall|b: int| 0 <= b < j ==>
                        (#[trigger] controllers@[flat(i as int, b, cols as int)]).shape_of() == city.shape_at(i as int, b),
                decreases cols - j,
            {
                let shape = match city.shape((i, j)) {
                    Some(shape) => shape,
                    None => crate::intersection::IntersectionShape::Simple,
                };
                proof {
                    assert(flat(i as int, j as int, cols as int) == i * cols + j);
                    assert forall|a: int, b: int| 0 <= a < i && 0 <= b < cols implies flat(a, b, cols as int) < i * cols by {
                        crate::city::lemma_flat_bounds(a, b, i as int, cols as int);
                    }
                }
                controllers.push(IntersectionController::new(shape));
                j = j + 1;
            }
            proof {
                assert(i * cols + cols == (i + 1) * cols) by (nonlinear_arith);
            }
            i = i + 1;
        }
        Simulation { cars, controllers }
    }

    pub fn cars(&self) -> (r: &Vec<Car>)
        ensures
            r@ == self.cars_of(),
    {
        &self.cars
    }

    /// The controller of the intersection at `index`; `None` outside the board.
    pub fn controller(&self, city: &City, index: GridIndex) -> (r: Option<&IntersectionController>)
        requires
            self.fits(*city),
        ensures
            r.is_some() <==> (index.0 < city.rows_of() && index.1 < city.cols_of()),
            r matches Some(c) ==> *c == self.controllers_of()[flat(index.0 as int, index.1 as int, city.cols_of() as int)],
    {
        let (i, j) = index;
        if i < city.rows() && j < city.cols() {
            proof {
                crate::city::lemma_flat_bounds(i as int, j as int, city.rows_of() as int, city.cols_of() as int);
            }
            // The table length is a usize, so the flat position fits in one.
            let _len = self.controllers.len();
            Some(&self.controllers[i * city.cols() + j])
        } else {
            None
        }
    }

    /// One tick: every car steps, deciding from the state at the start of the
    /// tick (see `stepped`), keeping its intent; then every controller advances
    /// its phase automaton once. Cars on the same lane that were a car length
    /// apart stay so.
    pub fn update(&mut self, city: &City)
        requires
            city.wf(),
            old(self).fits(*city),
        ensures
            final(self).fits(*city),
            final(self).cars_of().len() == old(self).cars_of().len(),
            apart(old(self).cars_of()) ==> apart(final(self).cars_of()),
            forall|k: int| 0 <= k < old(self).cars_of().len() ==> {
                &&& stepped(*city, old(self).controllers_of(), old(self).cars_of(), k, (#[trigger] final(self).cars_of()[k]).location)
                &&& final(self).cars_of()[k].intent == old(self).cars_of()[k].intent
            },
            final(self).controllers_of().len() == old(self).controllers_of().len(),
            forall|m: int| 0 <= m < old(self).controllers_of().len() ==> {
                &&& (#[trigger] final(self).controllers_of()[m]).shape_of() == old(self).controllers_of()[m].shape_of()
                &&& (final(self).controllers_of()[m].phase_of(), final(self).controllers_of()[m].timer_of()) == next_state(
                    old(self).controllers_of()[m].shape_of(),
                    old(self).controllers_of()[m].phase_of(),
                    old(self).controllers_of()[m].timer_of(),
                )
            },
    {
        let n = self.cars.len();
        let mut next: Vec<Car> = Vec::new();
        let mut k: usize = 0;
        while k < n
            invariant
                city.wf(),
                self.fits(*city),
                n == self.cars@.len(),
                k <= n,
                next@.len() == k,
                forall|m: int| 0 <= m < k ==> {
                    &&& stepped(*city, self.controllers@, self.cars@, m, (#[trigger] next@[m]).location)
                    &&& next@[m].intent == self.cars@[m].intent
                },
            decreases n - k,
        {
            let location = step_car(city, &self.controllers, &self.cars, k);
            next.push(Car { location, intent: self.cars[k].intent });
            k = k + 1;
        }
        proof {
            if apart(self.cars@) {
                lemma_tick_keeps_cars_apart(*city, self.controllers@, self.cars@, next@);
            }
        }
        self.cars = next;
        let ghost before = self.controllers@;
        let ghost moved = self.cars@;
        let count = self.controllers.len();
        let mut c: usize = 0;
        while c < count
            invariant
                self.cars@ == moved,
                count == before.len(),
                self.controllers@.len() == count,
                c <= count,
                forall|m: int| 0 <= m < count ==> (#[trigger] before[m]).wf(),
                forall|m: int| c <= m < count ==> #[trigger] self.controllers@[m] == before[m],
                forall|m: int| 0 <= m < c ==> {
                    &&& (#[trigger] self.controllers@[m]).wf()
                    &&& self.controllers@[m].shape_of() == before[m].shape_of()
                    &&& (self.controllers@[m].phase_of(), self.controllers@[m].timer_of()) == next_state(
                        before[m].shape_of(),
                        before[m].phase_of(),
                        before[m].timer_of(),
                    )
                },
            decreases count - c,
        {
            let mut controller = self.controllers[c];
            controller.tick();
            self.controllers.set(c, controller);
            c = c + 1;
        }
        proof {
            assert forall|i: int, j: int| 0 <= i < city.rows_of() && 0 <= j < city.cols_of() implies
                (#[trigger] self.controllers@[flat(i, j, city.cols_of() as int)]).shape_of() == city.shape_at(i, j) by {
                crate::city::lemma_flat_bounds(i, j, city.rows_of() as int, city.cols_of() as int);
                assert(before[flat(i, j, city.cols_of() as int)].shape_of() == city.shape_at(i, j));
            }
        }
    }
}

} // verus!
