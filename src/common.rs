//! Direction primitives: compass and relative directions, road axes, lane
//! flow directions, the turn-rule bit-set and a four-slot directional container.
use vstd::prelude::*;

verus! {

pub type CarIndex = usize;

pub type LaneIndex = usize;

/// A compass direction. Listed counter-clockwise, so that the position of a
/// direction in this list (its `index`) grows by one on each quarter turn to
/// the right.
#[derive(Copy, Clone, Debug, PartialEq, Eq, Structural)]
pub enum AbsoluteDirection {
    North,
    West,
    South,
    East,
}

/// A direction relative to the way a car is heading. Listed so that a turn by
/// a `RelativeDirection` adds its `index` to that of the heading.
#[derive(Copy, Clone, Debug, PartialEq, Eq, Structural)]
pub enum RelativeDirection {
    Front,
    Right,
    Back,
    Left,
}

impl AbsoluteDirection {
    /// Position of the direction in the cycle North, West, South, East.
    pub open spec fn index(self) -> int {
        match self {
            AbsoluteDirection::North => 0,
            AbsoluteDirection::West => 1,
            AbsoluteDirection::South => 2,
            AbsoluteDirection::East => 3,
        }
    }

    /// The direction at position `i` (taken modulo 4) of the cycle.
    pub open spec fn from_index(i: int) -> AbsoluteDirection {
        let k = i % 4;
        if k == 0 {
            AbsoluteDirection::North
        } else if k == 1 {
            AbsoluteDirection::West
        } else if k == 2 {
            AbsoluteDirection::South
        } else {
            AbsoluteDirection::East
        }
    }

    /// The direction reached by turning `r` from `self`.
    pub open spec fn turned(self, r: RelativeDirection) -> AbsoluteDirection {
        AbsoluteDirection::from_index(self.index() + r.index())
    }

    /// The relative turn that leads from heading `self` to heading `other`.
    pub open spec fn relative_to(self, other: AbsoluteDirection) -> RelativeDirection {
        RelativeDirection::from_index(other.index() - self.index() + 4)
    }

    pub fn turn_opposite(self) -> (r: AbsoluteDirection)
        ensures
            r.index() == (self.index() + 2) % 4,
    {
        match self {
            AbsoluteDirection::East => AbsoluteDirection::West,
            AbsoluteDirection::West => AbsoluteDirection::East,
            AbsoluteDirection::North => AbsoluteDirection::South,
            AbsoluteDirection::South => AbsoluteDirection::North,
        }
    }

    pub fn turn_left(self) -> (r: AbsoluteDirection)
        ensures
            r.index() == (self.index() + 3) % 4,
    {
        match self {
            AbsoluteDirection::East => AbsoluteDirection::South,
            AbsoluteDirection::West => AbsoluteDirection::North,
            AbsoluteDirection::North => AbsoluteDirection::East,
            AbsoluteDirection::South => AbsoluteDirection::West,
        }
    }

    pub fn turn_right(self) -> (r: AbsoluteDirection)
        ensures
            r.index() == (self.index() + 1) % 4,
    {
        match self {
            AbsoluteDirection::East => AbsoluteDirection::North,
            AbsoluteDirection::West => AbsoluteDirection::South,
            AbsoluteDirection::North => AbsoluteDirection::West,
            AbsoluteDirection::South => AbsoluteDirection::East,
        }
    }

    pub fn turn(self, t: RelativeDirection) -> (r: AbsoluteDirection)
        ensures
            r.index() == (self.index() + t.index()) % 4,
            r == self.turned(t),
    {
        match t {
            RelativeDirection::Left => self.turn_left(),
            RelativeDirection::Right => self.turn_right(),
            RelativeDirection::Front => self,
            RelativeDirection::Back => self.turn_opposite(),
        }
    }

    /// The relative turn that leads from heading `self` to heading `other`.
    pub fn should_turn(self, other: AbsoluteDirection) -> (r: RelativeDirection)
        ensures
            r.index() == (other.index() - self.index() + 4) % 4,
            r == self.relative_to(other),
            self.turned(r) == other,
    {
        if self == other {
            RelativeDirection::Front
        } else if self.turn_left() == other {
            RelativeDirection::Left
        } else if self.turn_right() == other {
            RelativeDirection::Right
        } else {
            RelativeDirection::Back
        }
    }

    /// The four directions, each once.
    pub fn directions() -> (r: Vec<AbsoluteDirection>)
        ensures
            r@ == seq![
                AbsoluteDirection::North,
                AbsoluteDirection::South,
                AbsoluteDirection::East,
                AbsoluteDirection::West,
            ],
    {
        vec![
            AbsoluteDirection::North,
            AbsoluteDirection::South,
            AbsoluteDirection::East,
            AbsoluteDirection::West,
        ]
    }
}

impl RelativeDirection {
    /// Number of quarter turns to the right that the relative direction stands for.
    pub open spec fn index(self) -> int {
        match self {
            RelativeDirection::Front => 0,
            RelativeDirection::Right => 1,
            RelativeDirection::Back => 2,
            RelativeDirection::Left => 3,
        }
    }

    /// The relative direction of `index` `i` (taken modulo 4).
    pub open spec fn from_index(i: int) -> RelativeDirection {
        let k = i % 4;
        if k == 0 {
            RelativeDirection::Front
        } else if k == 1 {
            RelativeDirection::Right
        } else if k == 2 {
            RelativeDirection::Back
        } else {
            RelativeDirection::Left
        }
    }
}

/// Whether a road runs east-west or north-south.
#[derive(Copy, Clone, Debug, PartialEq, Eq, Structural)]
pub enum HorizontalOrVertical {
    Horizontal,
    Vertical,
}

/// The orientation of a road.
pub type AxisDirection = HorizontalOrVertical;

/// The flow of a lane relative to increasing grid index.
#[derive(Copy, Clone, Debug, PartialEq, Eq, Structural)]
pub enum LaneDirection {
    LowToHigh,
    HighToLow,
}

/// The heading of cars in a lane with flow `lane_direction` on a road of
/// orientation `h_or_v`.
pub open spec fn lane_heading(h_or_v: HorizontalOrVertical, lane_direction: LaneDirection) -> AbsoluteDirection {
    match (h_or_v, lane_direction) {
        (HorizontalOrVertical::Horizontal, LaneDirection::LowToHigh) => AbsoluteDirection::West,
        (HorizontalOrVertical::Horizontal, LaneDirection::HighToLow) => AbsoluteDirection::East,
        (HorizontalOrVertical::Vertical, LaneDirection::LowToHigh) => AbsoluteDirection::South,
        (HorizontalOrVertical::Vertical, LaneDirection::HighToLow) => AbsoluteDirection::North,
    }
}

impl AbsoluteDirection {
    pub fn of_lane(h_or_v: HorizontalOrVertical, lane_direction: LaneDirection) -> (r: AbsoluteDirection)
        ensures
            r == lane_heading(h_or_v, lane_direction),
    {
        match (h_or_v, lane_direction) {
            (HorizontalOrVertical::Horizontal, LaneDirection::LowToHigh) => AbsoluteDirection::West,
            (HorizontalOrVertical::Horizontal, LaneDirection::HighToLow) => AbsoluteDirection::East,
            (HorizontalOrVertical::Vertical, LaneDirection::LowToHigh) => AbsoluteDirection::South,
            (HorizontalOrVertical::Vertical, LaneDirection::HighToLow) => AbsoluteDirection::North,
        }
    }
}

/// One value for each of the four compass directions.
#[derive(Copy, Clone, Debug)]
pub struct Around<T> {
    pub north: T,
    pub west: T,
    pub south: T,
    pub east: T,
}

impl<T> Around<T> {
    /// The value held for `direction`.
    pub open spec fn at(self, direction: AbsoluteDirection) -> T {
        match direction {
            AbsoluteDirection::North => self.north,
            AbsoluteDirection::West => self.west,
            AbsoluteDirection::South => self.south,
            AbsoluteDirection::East => self.east,
        }
    }

    /// `self` with the value for `direction` replaced by `v`.
    pub open spec fn with(self, direction: AbsoluteDirection, v: T) -> Around<T> {
        match direction {
            AbsoluteDirection::North => Around { north: v, ..self },
            AbsoluteDirection::West => Around { west: v, ..self },
            AbsoluteDirection::South => Around { south: v, ..self },
            AbsoluteDirection::East => Around { east: v, ..self },
        }
    }

    pub fn get(&self, direction: AbsoluteDirection) -> (r: &T)
        ensures
            *r == self.at(direction),
    {
        match direction {
            AbsoluteDirection::North => &self.north,
            AbsoluteDirection::West => &self.west,
            AbsoluteDirection::South => &self.south,
            AbsoluteDirection::East => &self.east,
        }
    }

    pub fn get_mut(&mut self, direction: AbsoluteDirection) -> (r: &mut T)
        ensures
            *r == old(self).at(direction),
            *final(self) == old(self).with(direction, *final(r)),
    {
        match direction {
            AbsoluteDirection::North => &mut self.north,
            AbsoluteDirection::West => &mut self.west,
            AbsoluteDirection::South => &mut self.south,
            AbsoluteDirection::East => &mut self.east,
        }
    }
}

/// The bit that stands for `r` in a `TurnRule`.
pub open spec fn turn_bit(r: RelativeDirection) -> u8 {
    match r {
        RelativeDirection::Front => 1,
        RelativeDirection::Left => 2,
        RelativeDirection::Right => 4,
        RelativeDirection::Back => 8,
    }
}

/// A set of relative turns, held as a bit-set with one bit per turn:
/// front 1, left 2, right 4, back 8. No other bit is ever set.
#[derive(Copy, Clone, Debug, PartialEq, Eq, Structural)]
pub struct TurnRule {
    bits: u8,
}

impl TurnRule {
    #[verifier::type_invariant]
    spec fn only_known_bits(self) -> bool {
        self.bits < 16
    }

    /// The raw bits.
    pub closed spec fn bits_of(self) -> u8 {
        self.bits
    }

    /// Two rules with the same bits are the same rule.
    pub proof fn lemma_bits_determine(a: TurnRule, b: TurnRule)
        requires
            a.bits_of() == b.bits_of(),
        ensures
            a == b,
    {
    }

    /// Whether the turn `r` is in the set.
    pub open spec fn allows(self, r: RelativeDirection) -> bool {
        self.bits_of() & turn_bit(r) != 0
    }

    pub fn empty() -> (r: TurnRule)
        ensures
            r.bits_of() == 0,
            forall|d: RelativeDirection| !r.allows(d),
    {
        let r = TurnRule { bits: 0 };
        assert forall|d: RelativeDirection| !r.allows(d) by {
            assert(0u8 & 1u8 == 0 && 0u8 & 2u8 == 0 && 0u8 & 4u8 == 0 && 0u8 & 8u8 == 0) by (bit_vector);
        }
        r
    }

    pub fn all() -> (r: TurnRule)
        ensures
            r.bits_of() == 15,
            forall|d: RelativeDirection| r.allows(d),
    {
        let r = TurnRule { bits: 15 };
        assert forall|d: RelativeDirection| r.allows(d) by {
            assert(15u8 & 1u8 != 0 && 15u8 & 2u8 != 0 && 15u8 & 4u8 != 0 && 15u8 & 8u8 != 0) by (bit_vector);
        }
        r
    }

    /// The set that holds `d` alone.
    pub fn only(d: RelativeDirection) -> (r: TurnRule)
        ensures
            r.bits_of() == turn_bit(d),
            forall|e: RelativeDirection| r.allows(e) <==> e == d,
    {
        let bits: u8 = match d {
            RelativeDirection::Front => 1,
            RelativeDirection::Left => 2,
            RelativeDirection::Right => 4,
            RelativeDirection::Back => 8,
        };
        let r = TurnRule { bits };
        assert forall|e: RelativeDirection| r.allows(e) <==> e == d by {
            assert(1u8 & 1u8 != 0 && 1u8 & 2u8 == 0 && 1u8 & 4u8 == 0 && 1u8 & 8u8 == 0) by (bit_vector);
            assert(2u8 & 1u8 == 0 && 2u8 & 2u8 != 0 && 2u8 & 4u8 == 0 && 2u8 & 8u8 == 0) by (bit_vector);
            assert(4u8 & 1u8 == 0 && 4u8 & 2u8 == 0 && 4u8 & 4u8 != 0 && 4u8 & 8u8 == 0) by (bit_vector);
            assert(8u8 & 1u8 == 0 && 8u8 & 2u8 == 0 && 8u8 & 4u8 == 0 && 8u8 & 8u8 != 0) by (bit_vector);
        }
        r
    }

    /// The set whose bits are `bits`, when `bits` names only known turns.
    pub fn from_bits(bits: u8) -> (r: Option<TurnRule>)
        ensures
            bits < 16 <==> r.is_some(),
            r matches Some(t) ==> t.bits_of() == bits,
    {
        if bits < 16 {
            Some(TurnRule { bits })
        } else {
            None
        }
    }

    /// The set whose bits are those of `bits` that name known turns.
    pub fn from_bits_truncate(bits: u8) -> (r: TurnRule)
        ensures
            r.bits_of() == bits & 15,
    {
        let b = bits & 15;
        assert(bits & 15u8 < 16) by (bit_vector);
        TurnRule { bits: b }
    }

    pub fn bits(&self) -> (r: u8)
        ensures
            r == self.bits_of(),
            r < 16,
    {
        proof {
            use_type_invariant(self);
        }
        self.bits
    }

    pub fn is_empty(&self) -> (r: bool)
        ensures
            r == (self.bits_of() == 0),
            r <==> forall|d: RelativeDirection| !self.allows(d),
    {
        proof {
            use_type_invariant(self);
            let b = self.bits;
            assert(b < 16 ==> (b == 0 <==> (b & 1 == 0 && b & 2 == 0 && b & 4 == 0 && b & 8 == 0))) by (bit_vector);
            if b != 0 {
                if b & 1 != 0 {
                    assert(self.allows(RelativeDirection::Front));
                } else if b & 2 != 0 {
                    assert(self.allows(RelativeDirection::Left));
                } else if b & 4 != 0 {
                    assert(self.allows(RelativeDirection::Right));
                } else {
                    assert(self.allows(RelativeDirection::Back));
                }
            }
        }
        self.bits == 0
    }

    /// Whether the two sets share a turn.
    pub fn intersects(&self, other: TurnRule) -> (r: bool)
        ensures
            r <==> exists|d: RelativeDirection| self.allows(d) && other.allows(d),
    {
        proof {
            use_type_invariant(self);
            use_type_invariant(&other);
            let a = self.bits;
            let b = other.bits;
            assert(a < 16 && b < 16 ==> ((a & b != 0) <==> ((a & 1 != 0 && b & 1 != 0) || (a & 2 != 0 && b & 2 != 0)
                || (a & 4 != 0 && b & 4 != 0) || (a & 8 != 0 && b & 8 != 0)))) by (bit_vector);
            if a & b != 0 {
                if a & 1 != 0 && b & 1 != 0 {
                    assert(self.allows(RelativeDirection::Front) && other.allows(RelativeDirection::Front));
                } else if a & 2 != 0 && b & 2 != 0 {
                    assert(self.allows(RelativeDirection::Left) && other.allows(RelativeDirection::Left));
                } else if a & 4 != 0 && b & 4 != 0 {
                    assert(self.allows(RelativeDirection::Right) && other.allows(RelativeDirection::Right));
                } else {
                    assert(self.allows(RelativeDirection::Back) && other.allows(RelativeDirection::Back));
                }
            }
        }
        self.bits & other.bits != 0
    }

    /// Whether every turn of `other` is in `self`.
    pub fn contains(&self, other: TurnRule) -> (r: bool)
        ensures
            r <==> forall|d: RelativeDirection| other.allows(d) ==> self.allows(d),
    {
        proof {
            use_type_invariant(self);
            use_type_invariant(&other);
            let a = self.bits;
            let b = other.bits;
            assert(a < 16 && b < 16 ==> ((a & b == b) <==> ((b & 1 != 0 ==> a & 1 != 0) && (b & 2 != 0 ==> a & 2 != 0)
                && (b & 4 != 0 ==> a & 4 != 0) && (b & 8 != 0 ==> a & 8 != 0)))) by (bit_vector);
            assert(((b & 1 != 0 ==> a & 1 != 0) && (b & 2 != 0 ==> a & 2 != 0)
                && (b & 4 != 0 ==> a & 4 != 0) && (b & 8 != 0 ==> a & 8 != 0))
                <==> forall|d: RelativeDirection| other.allows(d) ==> self.allows(d)) by {
                assert(other.allows(RelativeDirection::Front) == (b & 1 != 0));
                assert(other.allows(RelativeDirection::Left) == (b & 2 != 0));
                assert(other.allows(RelativeDirection::Right) == (b & 4 != 0));
                assert(other.allows(RelativeDirection::Back) == (b & 8 != 0));
            }
        }
        self.bits & other.bits == other.bits
    }

    /// Whether the turn `d` is in the set.
    pub fn permits(&self, d: RelativeDirection) -> (r: bool)
        ensures
            r == self.allows(d),
    {
        let bit: u8 = match d {
            RelativeDirection::Front => 1,
            RelativeDirection::Left => 2,
            RelativeDirection::Right => 4,
            RelativeDirection::Back => 8,
        };
        self.bits & bit != 0
    }

    /// The set of turns in either set.
    pub fn union(&self, other: TurnRule) -> (r: TurnRule)
        ensures
            forall|d: RelativeDirection| r.allows(d) <==> (self.allows(d) || other.allows(d)),
    {
        proof {
            use_type_invariant(self);
            use_type_invariant(&other);
        }
        let a = self.bits;
        let b = other.bits;
        assert(a < 16 && b < 16 ==> (a | b) < 16) by (bit_vector);
        assert(forall|m: u8| #![auto] ((a | b) & m != 0) <==> (a & m != 0 || b & m != 0)) by (bit_vector);
        TurnRule { bits: a | b }
    }
}

/// Turning by `r` and then asking which turn leads from the old heading to the
/// new one gives `r` back: `turn` and `should_turn` are inverse.
pub proof fn lemma_should_turn_inverts_turn(d: AbsoluteDirection, r: RelativeDirection)
    ensures
        d.relative_to(d.turned(r)) == r,
{
}

/// Conversely, turning by the relative direction from `d` to `t` leads to `t`.
pub proof fn lemma_turn_inverts_should_turn(d: AbsoluteDirection, t: AbsoluteDirection)
    ensures
        d.turned(d.relative_to(t)) == t,
{
}

/// The heading of a lane is fixed by the road's orientation and the lane's
/// flow: horizontal roads carry West (low to high) and East (high to low),
/// vertical roads South (low to high) and North (high to low). The four
/// pairs give four different headings.
pub proof fn lemma_lane_heading_table()
    ensures
        lane_heading(HorizontalOrVertical::Vertical, LaneDirection::HighToLow) == AbsoluteDirection::North,
        lane_heading(HorizontalOrVertical::Vertical, LaneDirection::LowToHigh) == AbsoluteDirection::South,
        lane_heading(HorizontalOrVertical::Horizontal, LaneDirection::HighToLow) == AbsoluteDirection::East,
        lane_heading(HorizontalOrVertical::Horizontal, LaneDirection::LowToHigh) == AbsoluteDirection::West,
        forall|a: HorizontalOrVertical, l: LaneDirection, b: HorizontalOrVertical, m: LaneDirection|
            lane_heading(a, l) == lane_heading(b, m) ==> a == b && l == m,
{
}

} // verus!
