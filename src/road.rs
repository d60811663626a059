//! Lanes and roads of the static network.
use vstd::prelude::*;
use crate::common::{LaneDirection, TurnRule};

verus! {

/// A lane, with the turns that a car leaving it may make.
#[derive(Copy, Clone, Debug, PartialEq, Eq, Structural)]
pub struct Lane {
    pub direction_rule: TurnRule,
}

/// A road between two adjacent grid cells: one group of lanes flowing toward
/// the higher grid index and one toward the lower. At least one group is not
/// empty; the road is one-way when the other is.
#[derive(Debug)]
pub struct Road {
    lane_to_high: Vec<Lane>,
    lane_to_low: Vec<Lane>,
}

impl Road {
    #[verifier::type_invariant]
    spec fn has_a_lane(self) -> bool {
        self.lane_to_high@.len() > 0 || self.lane_to_low@.len() > 0
    }

    /// The lanes flowing toward the higher grid index.
    pub closed spec fn to_high(self) -> Seq<Lane> {
        self.lane_to_high@
    }

    /// The lanes flowing toward the lower grid index.
    pub closed spec fn to_low(self) -> Seq<Lane> {
        self.lane_to_low@
    }

    /// Number of lanes in both directions.
    pub open spec fn lanes(self) -> nat {
        self.to_high().len() + self.to_low().len()
    }

    /// The lane group that flows in `direction`.
    pub open spec fn group(self, direction: LaneDirection) -> Seq<Lane> {
        match direction {
            LaneDirection::LowToHigh => self.to_high(),
            LaneDirection::HighToLow => self.to_low(),
        }
    }

    /// A road with the given lane groups; `None` when both are empty.
    pub fn new(lane_to_high: Vec<Lane>, lane_to_low: Vec<Lane>) -> (r: Option<Road>)
        ensures
            r.is_some() <==> (lane_to_high@.len() > 0 || lane_to_low@.len() > 0),
            r matches Some(road) ==> road.to_high() == lane_to_high@ && road.to_low() == lane_to_low@,
    {
        if lane_to_high.len() == 0 && lane_to_low.len() == 0 {
            None
        } else {
            Some(Road { lane_to_high, lane_to_low })
        }
    }

    /// Every road has a lane in at least one direction.
    pub fn has_lanes(&self) -> (r: bool)
        ensures
            r,
            r <==> (self.to_high().len() > 0 || self.to_low().len() > 0),
    {
        proof {
            use_type_invariant(self);
        }
        self.lane_to_high.len() > 0 || self.lane_to_low.len() > 0
    }

    /// Total number of lanes in both directions.
    pub fn lane_number(&self) -> (r: usize)
        requires
            self.to_high().len() + self.to_low().len() <= usize::MAX,
        ensures
            r == self.to_high().len() + self.to_low().len(),
            r > 0,
    {
        proof {
            use_type_invariant(self);
        }
        self.lane_to_high.len() + self.lane_to_low.len()
    }

    /// The lanes that flow in `direction`, in order.
    pub fn lanes_to_direction(&self, direction: LaneDirection) -> (r: &Vec<Lane>)
        ensures
            r@ == self.group(direction),
    {
        match direction {
            LaneDirection::LowToHigh => &self.lane_to_high,
            LaneDirection::HighToLow => &self.lane_to_low,
        }
    }

    /// Whether the road carries traffic in one direction only. Every road has a
    /// lane, so this holds exactly when one of the two groups is empty.
    pub fn is_one_way(&self) -> (r: bool)
        ensures
            self.to_high().len() > 0 || self.to_low().len() > 0,
            r <==> (self.to_high().len() == 0) != (self.to_low().len() == 0),
    {
        proof {
            use_type_invariant(self);
        }
        self.lane_to_high.len() == 0 || self.lane_to_low.len() == 0
    }
}

} // verus!
