use mpi_traffic::common::{AbsoluteDirection, Around, RelativeDirection, TurnRule};
use mpi_traffic::controller::{advance_proportion, follow_lane, may_enter, CAR_LENGTH};

#[test]
fn lane_cars_follow_without_overlap() {
    let mut p = vec![100u64, 50, 0];
    follow_lane(&mut p, 110, 20);
    assert_eq!(p, vec![110, 65, 20]);
    follow_lane(&mut p, 110, 20);
    assert_eq!(p, vec![110, 65, 20]);
    for w in p.windows(2) {
        assert!(w[1] + CAR_LENGTH <= w[0]);
    }
}

#[test]
fn empty_lane_stays_empty() {
    let mut p: Vec<u64> = vec![];
    follow_lane(&mut p, 100, 10);
    assert!(p.is_empty());
}

#[test]
fn entry_needs_both_permissions() {
    let green_north = Around {
        north: TurnRule::all(),
        west: TurnRule::empty(),
        south: TurnRule::all(),
        east: TurnRule::empty(),
    };
    // Heading South, the car arrives from the North side.
    assert!(may_enter(TurnRule::all(), &green_north, AbsoluteDirection::South, AbsoluteDirection::South));
    assert!(!may_enter(
        TurnRule::only(RelativeDirection::Left),
        &green_north,
        AbsoluteDirection::South,
        AbsoluteDirection::South
    ));
    // Heading East, the car arrives from the West side, which is red.
    assert!(!may_enter(TurnRule::all(), &green_north, AbsoluteDirection::East, AbsoluteDirection::East));
}

#[test]
fn proportion_saturates() {
    assert_eq!(advance_proportion(0, 300), 300);
    assert_eq!(advance_proportion(900, 300), 1000);
    assert_eq!(advance_proportion(1000, 5), 1000);
}
