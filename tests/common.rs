use mpi_traffic::common::AbsoluteDirection::{East, North, South, West};
use mpi_traffic::common::HorizontalOrVertical::{Horizontal, Vertical};
use mpi_traffic::common::LaneDirection::{HighToLow, LowToHigh};
use mpi_traffic::common::RelativeDirection::{Back, Front, Left, Right};
use mpi_traffic::common::{AbsoluteDirection, Around, RelativeDirection, TurnRule};

#[test]
fn turn() {
    let cases = vec![
        ((North, East), Left),
        ((East, South), Left),
        ((South, West), Left),
        ((West, North), Left),
        ((North, West), Right),
        ((West, South), Right),
        ((South, East), Right),
        ((East, North), Right),
        ((North, North), Front),
        ((West, West), Front),
        ((South, South), Front),
        ((East, East), Front),
        ((North, South), Back),
        ((West, East), Back),
        ((South, North), Back),
        ((East, West), Back),
    ];
    for ((from, to), relative) in cases.into_iter() {
        assert_eq!(from.turn(relative), to);
        assert_eq!(from.should_turn(to), relative);
    }
}

#[test]
fn absolute_direction_of_lane() {
    let cases = vec![
        ((Vertical, HighToLow), North),
        ((Vertical, LowToHigh), South),
        ((Horizontal, HighToLow), East),
        ((Horizontal, LowToHigh), West),
    ];
    for ((h_or_v, lane_direction), absolute) in cases.into_iter() {
        assert_eq!(AbsoluteDirection::of_lane(h_or_v, lane_direction), absolute);
    }
}

#[test]
fn should_turn_undoes_turn_for_every_pair() {
    for d in AbsoluteDirection::directions() {
        for r in [Front, Right, Back, Left] {
            assert_eq!(d.should_turn(d.turn(r)), r);
        }
    }
}

#[test]
fn single_turns() {
    assert_eq!(North.turn_opposite(), South);
    assert_eq!(East.turn_opposite(), West);
    assert_eq!(North.turn_left(), East);
    assert_eq!(South.turn_left(), West);
    assert_eq!(North.turn_right(), West);
    assert_eq!(West.turn_right(), South);
}

#[test]
fn directions_lists_each_once() {
    assert_eq!(AbsoluteDirection::directions(), vec![North, South, East, West]);
}

#[test]
fn around_get_and_get_mut() {
    let mut a = Around { north: 1u32, west: 2, south: 3, east: 4 };
    assert_eq!(*a.get(North), 1);
    assert_eq!(*a.get(West), 2);
    assert_eq!(*a.get(South), 3);
    assert_eq!(*a.get(East), 4);
    *a.get_mut(South) = 30;
    assert_eq!(a.south, 30);
    assert_eq!((a.north, a.west, a.east), (1, 2, 4));
}

#[test]
fn turn_rule_sets() {
    let all = TurnRule::all();
    let none = TurnRule::empty();
    assert_eq!(all.bits(), 15);
    assert_eq!(none.bits(), 0);
    assert!(none.is_empty());
    assert!(!all.is_empty());
    let front = TurnRule::only(RelativeDirection::Front);
    let left = TurnRule::only(RelativeDirection::Left);
    assert_eq!(front.bits(), 1);
    assert_eq!(left.bits(), 2);
    assert_eq!(TurnRule::only(Right).bits(), 4);
    assert_eq!(TurnRule::only(Back).bits(), 8);
    assert!(!front.intersects(left));
    assert!(all.intersects(left));
    let both = front.union(left);
    assert_eq!(both.bits(), 3);
    assert!(both.contains(front));
    assert!(!front.contains(both));
    assert!(both.permits(Left));
    assert!(!both.permits(Back));
    assert_eq!(TurnRule::from_bits(5).map(|t| t.bits()), Some(5));
    assert!(TurnRule::from_bits(16).is_none());
    assert_eq!(TurnRule::from_bits_truncate(0xf3).bits(), 3);
}
