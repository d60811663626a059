use mpi_traffic::common::{LaneDirection, RelativeDirection, TurnRule};
use mpi_traffic::road::{Lane, Road};

fn lane(rule: TurnRule) -> Lane {
    Lane { direction_rule: rule }
}

#[test]
fn road_without_lanes_is_refused() {
    assert!(Road::new(vec![], vec![]).is_none());
}

#[test]
fn two_way_road() {
    let road = Road::new(
        vec![lane(TurnRule::all()), lane(TurnRule::only(RelativeDirection::Left))],
        vec![lane(TurnRule::empty())],
    )
    .unwrap();
    assert!(road.has_lanes());
    assert!(!road.is_one_way());
    assert_eq!(road.lane_number(), 3);
    assert_eq!(road.lanes_to_direction(LaneDirection::LowToHigh).len(), 2);
    assert_eq!(road.lanes_to_direction(LaneDirection::HighToLow).len(), 1);
    assert_eq!(road.lanes_to_direction(LaneDirection::LowToHigh)[1].direction_rule.bits(), 2);
}

#[test]
fn one_way_roads() {
    let high = Road::new(vec![lane(TurnRule::all())], vec![]).unwrap();
    assert!(high.is_one_way());
    assert_eq!(high.lane_number(), 1);
    let low = Road::new(vec![], vec![lane(TurnRule::all()), lane(TurnRule::all())]).unwrap();
    assert!(low.is_one_way());
    assert_eq!(low.lane_number(), 2);
    assert!(low.lanes_to_direction(LaneDirection::LowToHigh).is_empty());
}
