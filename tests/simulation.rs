use mpi_traffic::city::{exit_road, City, Geometry, Point, BLOCK_LENGTH, LANE_WIDTH};
use mpi_traffic::common::{HorizontalOrVertical, LaneDirection, RelativeDirection, TurnRule};
use mpi_traffic::intersection::IntersectionShape;
use mpi_traffic::common::AbsoluteDirection;
use mpi_traffic::road::{Lane, Road};
use mpi_traffic::simulation::{rate_of_crossing, Car, Location, Simulation, SPEED};

fn one_lane(rule: TurnRule, flow: LaneDirection) -> Option<Road> {
    let lane = Lane { direction_rule: rule };
    match flow {
        LaneDirection::LowToHigh => Road::new(vec![lane], vec![]),
        LaneDirection::HighToLow => Road::new(vec![], vec![lane]),
    }
}

/// One crossroad. Cars come in from the north (heading South), the east
/// (heading West) and the west (heading East); the south road leads away
/// heading South.
fn crossroad_city() -> City {
    let all = TurnRule::all();
    // Horizontal roads of row 0: index 0 on the East side, index 1 on the West side.
    let horizontal = vec![
        one_lane(all, LaneDirection::LowToHigh),
        one_lane(all, LaneDirection::HighToLow),
    ];
    // Vertical roads of column 0: index 0 on the North side, index 1 on the South side.
    let vertical = vec![
        one_lane(all, LaneDirection::LowToHigh),
        one_lane(all, LaneDirection::LowToHigh),
    ];
    City::new(1, 1, horizontal, vertical).unwrap()
}

fn car_at_north_start() -> Car {
    Car {
        location: Location::OnLane {
            road_direction: HorizontalOrVertical::Vertical,
            road_index: (0, 0),
            lane_direction: LaneDirection::LowToHigh,
            lane_index: 0,
            position: 0,
        },
        intent: RelativeDirection::Front,
    }
}

#[test]
fn city_tables_must_fit_the_board() {
    assert!(City::new(1, 1, vec![None], vec![None, None]).is_none());
    assert!(City::new(1, 1, vec![None, None], vec![None]).is_none());
    assert!(City::new(0, 0, vec![], vec![]).is_some());
}

#[test]
fn city_shapes_follow_roads() {
    let city = crossroad_city();
    assert_eq!(city.rows(), 1);
    assert_eq!(city.cols(), 1);
    assert_eq!(city.shape((0, 0)), Some(IntersectionShape::Crossroad));
    assert_eq!(city.shape((0, 1)), None);
    assert!(city.road_at(HorizontalOrVertical::Horizontal, (0, 2)).is_none());
    assert!(city.road_at(HorizontalOrVertical::Vertical, (1, 0)).is_some());
    let all = TurnRule::all();
    let t = City::new(
        1,
        1,
        vec![one_lane(all, LaneDirection::LowToHigh), one_lane(all, LaneDirection::LowToHigh)],
        vec![None, one_lane(all, LaneDirection::LowToHigh)],
    )
    .unwrap();
    assert_eq!(t.shape((0, 0)), Some(IntersectionShape::TJunction { missing: AbsoluteDirection::North }));
    let dead_end = City::new(1, 1, vec![None, None], vec![one_lane(all, LaneDirection::LowToHigh), None]).unwrap();
    assert_eq!(dead_end.shape((0, 0)), Some(IntersectionShape::Simple));
}

#[test]
fn lane_ends_and_exits() {
    let city = crossroad_city();
    assert_eq!(city.lane_end(HorizontalOrVertical::Vertical, (0, 0), LaneDirection::LowToHigh), Some((0, 0)));
    assert_eq!(city.lane_end(HorizontalOrVertical::Vertical, (0, 0), LaneDirection::HighToLow), None);
    assert_eq!(city.lane_end(HorizontalOrVertical::Vertical, (1, 0), LaneDirection::HighToLow), Some((0, 0)));
    assert_eq!(city.lane_end(HorizontalOrVertical::Horizontal, (0, 1), LaneDirection::LowToHigh), None);
    assert_eq!(
        exit_road((0, 0), AbsoluteDirection::South),
        Some((HorizontalOrVertical::Vertical, (1, 0), LaneDirection::LowToHigh))
    );
    assert_eq!(
        exit_road((0, 0), AbsoluteDirection::West),
        Some((HorizontalOrVertical::Horizontal, (0, 1), LaneDirection::LowToHigh))
    );
    assert_eq!(
        exit_road((2, 3), AbsoluteDirection::North),
        Some((HorizontalOrVertical::Vertical, (2, 3), LaneDirection::HighToLow))
    );
    assert_eq!(exit_road((0, usize::MAX), AbsoluteDirection::West), None);
}

#[test]
fn car_crosses_a_crossroad_straight_on() {
    let city = crossroad_city();
    let mut sim = Simulation::new(&city, vec![car_at_north_start()]);
    let mut ticks: u64 = 0;
    let mut entered_at: Option<u64> = None;
    let mut stages = vec!["on_lane"];
    loop {
        sim.update(&city);
        ticks += 1;
        match sim.cars()[0].location {
            Location::InIntersection { intersection_index, from_direction, to_direction, .. } => {
                if entered_at.is_none() {
                    assert_eq!(intersection_index, (0, 0));
                    assert_eq!(from_direction, AbsoluteDirection::North);
                    assert_eq!(to_direction, AbsoluteDirection::South);
                    // The north approach has right of way when the car arrives.
                    let table = sim.controller(&city, (0, 0)).unwrap().current();
                    assert!(table.north.bits() == 15 || ticks % 120 == 0);
                    entered_at = Some(ticks);
                    stages.push("in_intersection");
                }
            }
            Location::OnLane { road_direction, road_index, lane_direction, position, .. } => {
                if entered_at.is_some() {
                    assert_eq!(road_direction, HorizontalOrVertical::Vertical);
                    assert_eq!(road_index, (1, 0));
                    assert_eq!(lane_direction, LaneDirection::LowToHigh);
                    assert_eq!(position, 0);
                    stages.push("on_lane");
                    break;
                }
            }
            Location::ChangingLane { .. } => panic!("no lane change expected"),
        }
        assert!(ticks < 10_000);
    }
    assert_eq!(stages, vec!["on_lane", "in_intersection", "on_lane"]);
    // Driving the lane takes its length over SPEED ticks, rounded up, and the
    // crossing 1000 over its rate, rounded up; the car arrives while the north side has
    // right of way, so it enters on the next tick.
    let length = city.road_length(HorizontalOrVertical::Vertical, (0, 0)).unwrap();
    assert_eq!(length, 583);
    let drive = (length + SPEED - 1) / SPEED;
    // A one-lane crossing is 35 dm long: 2000 / 35 = 57 thousandths a tick.
    let rate = rate_of_crossing(&city, (0, 0), AbsoluteDirection::North);
    assert_eq!(rate, 57);
    let cross = (1000 + rate - 1) / rate;
    assert_eq!(cross, 18);
    assert_eq!(entered_at, Some(drive + 1));
    assert_eq!(ticks, drive + 1 + cross);
}

#[test]
fn red_light_holds_the_car() {
    let city = crossroad_city();
    let length = city.road_length(HorizontalOrVertical::Horizontal, (0, 0)).unwrap();
    let car = Car {
        location: Location::OnLane {
            road_direction: HorizontalOrVertical::Horizontal,
            road_index: (0, 0),
            lane_direction: LaneDirection::LowToHigh,
            lane_index: 0,
            position: length,
        },
        // Heading West, a right turn leads South, onto the road leading away.
        intent: RelativeDirection::Right,
    };
    let mut sim = Simulation::new(&city, vec![car]);
    // The east side is red during the first phase.
    for _ in 0..100 {
        sim.update(&city);
        assert!(matches!(sim.cars()[0].location, Location::OnLane { position, .. } if position == length));
    }
    for _ in 0..30 {
        sim.update(&city);
    }
    assert!(matches!(sim.cars()[0].location, Location::InIntersection { .. }));
}

#[test]
fn following_car_keeps_its_distance() {
    let city = crossroad_city();
    let lead = Car {
        location: Location::OnLane {
            road_direction: HorizontalOrVertical::Vertical,
            road_index: (0, 0),
            lane_direction: LaneDirection::LowToHigh,
            lane_index: 0,
            position: 50,
        },
        intent: RelativeDirection::Front,
    };
    let mut sim = Simulation::new(&city, vec![car_at_north_start(), lead]);
    for _ in 0..300 {
        sim.update(&city);
        let cars = sim.cars();
        if let (
            Location::OnLane { position: back, road_index: (0, 0), .. },
            Location::OnLane { position: front, road_index: (0, 0), .. },
        ) = (cars[0].location, cars[1].location)
        {
            assert!(back + 45 <= front);
        }
    }
}

#[test]
fn lane_change_when_lane_forbids_turn() {
    let front_only = Lane { direction_rule: TurnRule::only(RelativeDirection::Front) };
    let left_only = Lane { direction_rule: TurnRule::only(RelativeDirection::Left) };
    let all = TurnRule::all();
    let city = City::new(
        1,
        1,
        vec![one_lane(all, LaneDirection::LowToHigh), one_lane(all, LaneDirection::LowToHigh)],
        vec![Road::new(vec![front_only, left_only], vec![]), one_lane(all, LaneDirection::LowToHigh)],
    )
    .unwrap();
    let length = city.road_length(HorizontalOrVertical::Vertical, (0, 0)).unwrap();
    let car = Car {
        location: Location::OnLane {
            road_direction: HorizontalOrVertical::Vertical,
            road_index: (0, 0),
            lane_direction: LaneDirection::LowToHigh,
            lane_index: 0,
            position: length,
        },
        intent: RelativeDirection::Left,
    };
    let mut sim = Simulation::new(&city, vec![car]);
    sim.update(&city);
    assert!(matches!(
        sim.cars()[0].location,
        Location::ChangingLane { from_lane_index: 0, to_lane_index: 1, lane_changed_proportion: 0, .. }
    ));
    for _ in 0..20 {
        sim.update(&city);
    }
    assert!(matches!(sim.cars()[0].location, Location::OnLane { lane_index: 1, position, .. } if position == length));
    sim.update(&city);
    assert!(matches!(
        sim.cars()[0].location,
        Location::InIntersection { to_direction: AbsoluteDirection::West, from_lane_index: 1, .. }
    ));
}

#[test]
fn geometry_follows_lane_counts() {
    let city = crossroad_city();
    assert_eq!(city.intersection_geometry((0, 0)), Some(Geometry { width: LANE_WIDTH, height: LANE_WIDTH }));
    assert_eq!(city.intersection_geometry((1, 0)), None);
    let all = TurnRule::all();
    let lane = Lane { direction_rule: all };
    let wide = City::new(
        2,
        1,
        vec![None, None, None, None],
        vec![None, Road::new(vec![lane, lane], vec![lane]), None],
    )
    .unwrap();
    // Both cells border the three-lane road on one side.
    assert_eq!(wide.intersection_geometry((0, 0)), Some(Geometry { width: 3 * LANE_WIDTH, height: LANE_WIDTH }));
    assert_eq!(wide.intersection_geometry((1, 0)), Some(Geometry { width: 3 * LANE_WIDTH, height: LANE_WIDTH }));
    // The vertical road between them loses half a height at each end.
    assert_eq!(wide.road_length(HorizontalOrVertical::Vertical, (1, 0)), Some(BLOCK_LENGTH - 17 - 17));
    assert_eq!(wide.road_length(HorizontalOrVertical::Vertical, (0, 0)), None);
}

#[test]
fn road_over_lane_limit_is_refused() {
    let lane = Lane { direction_rule: TurnRule::all() };
    let sixteen = Road::new(vec![lane; 8], vec![lane; 8]);
    assert!(City::new(1, 1, vec![sixteen, None], vec![None, None]).is_none());
    let fifteen = Road::new(vec![lane; 8], vec![lane; 7]);
    assert!(City::new(1, 1, vec![fifteen, None], vec![None, None]).is_some());
    // The widest road still leaves a car length between intersections.
    let fifteen = || Road::new(vec![lane; 8], vec![lane; 7]);
    let wide = City::new(1, 2, vec![None, Road::new(vec![lane], vec![]), None], vec![fifteen(), fifteen(), None, None]).unwrap();
    assert_eq!(wide.road_length(HorizontalOrVertical::Horizontal, (0, 1)), Some(BLOCK_LENGTH - 262 - 262));

}

#[test]
fn crossing_waits_for_a_clear_exit() {
    let city = crossroad_city();
    let crossing = Car {
        location: Location::InIntersection {
            intersection_index: (0, 0),
            from_direction: AbsoluteDirection::North,
            from_lane_index: 0,
            to_direction: AbsoluteDirection::South,
            to_lane_index: 0,
            in_intersection_proportion: 990,
        },
        intent: RelativeDirection::Front,
    };
    let ahead = Car {
        location: Location::OnLane {
            road_direction: HorizontalOrVertical::Vertical,
            road_index: (1, 0),
            lane_direction: LaneDirection::LowToHigh,
            lane_index: 0,
            position: 10,
        },
        intent: RelativeDirection::Front,
    };
    let mut sim = Simulation::new(&city, vec![crossing, ahead]);
    sim.update(&city);
    assert!(matches!(sim.cars()[0].location, Location::InIntersection { in_intersection_proportion: 1000, .. }));
    assert!(matches!(sim.cars()[1].location, Location::OnLane { position: 12, .. }));
    // The car ahead clears the first car length after 18 ticks in all.
    for _ in 0..17 {
        sim.update(&city);
        assert!(matches!(sim.cars()[0].location, Location::InIntersection { .. }));
    }
    assert!(matches!(sim.cars()[1].location, Location::OnLane { position: 46, .. }));
    sim.update(&city);
    assert!(matches!(sim.cars()[0].location, Location::OnLane { road_index: (1, 0), position: 0, .. }));
}

#[test]
fn two_crossings_into_one_lane_take_turns() {
    let city = crossroad_city();
    let from = |side: AbsoluteDirection| Car {
        location: Location::InIntersection {
            intersection_index: (0, 0),
            from_direction: side,
            from_lane_index: 0,
            to_direction: AbsoluteDirection::South,
            to_lane_index: 0,
            in_intersection_proportion: 990,
        },
        intent: RelativeDirection::Front,
    };
    let mut sim = Simulation::new(&city, vec![from(AbsoluteDirection::North), from(AbsoluteDirection::East)]);
    sim.update(&city);
    assert!(matches!(sim.cars()[0].location, Location::OnLane { road_index: (1, 0), position: 0, .. }));
    assert!(matches!(sim.cars()[1].location, Location::InIntersection { in_intersection_proportion: 1000, .. }));
    sim.update(&city);
    assert!(matches!(sim.cars()[1].location, Location::InIntersection { .. }));
}

#[test]
fn road_indices_are_row_major() {
    let all = TurnRule::all();
    let city = City::new(
        2,
        1,
        vec![None, one_lane(all, LaneDirection::LowToHigh), one_lane(all, LaneDirection::HighToLow), None],
        vec![one_lane(all, LaneDirection::LowToHigh), None, one_lane(all, LaneDirection::LowToHigh)],
    )
    .unwrap();
    assert_eq!(city.road_indices(HorizontalOrVertical::Horizontal), vec![(0, 1), (1, 0)]);
    assert_eq!(city.road_indices(HorizontalOrVertical::Vertical), vec![(0, 0), (2, 0)]);
    let empty = City::new(0, 0, vec![], vec![]).unwrap();
    assert!(empty.road_indices(HorizontalOrVertical::Horizontal).is_empty());
}

#[test]
fn centers_lie_on_the_block_grid() {
    let city = crossroad_city();
    assert_eq!(city.intersection_center((0, 0)), Some(Point { x: BLOCK_LENGTH, y: BLOCK_LENGTH }));
    assert_eq!(city.intersection_center((0, 1)), None);
    // The east-side road lies half a block before the cell, the west-side one half a block after.
    assert_eq!(city.road_center(HorizontalOrVertical::Horizontal, (0, 0)), Some(Point { x: BLOCK_LENGTH / 2, y: BLOCK_LENGTH }));
    assert_eq!(
        city.road_center(HorizontalOrVertical::Horizontal, (0, 1)),
        Some(Point { x: BLOCK_LENGTH + BLOCK_LENGTH / 2, y: BLOCK_LENGTH })
    );
    assert_eq!(
        city.road_center(HorizontalOrVertical::Vertical, (1, 0)),
        Some(Point { x: BLOCK_LENGTH, y: BLOCK_LENGTH + BLOCK_LENGTH / 2 })
    );
    assert_eq!(city.road_center(HorizontalOrVertical::Vertical, (2, 0)), None);
}

#[test]
fn crossing_rate_follows_distance() {
    let lane = Lane { direction_rule: TurnRule::all() };
    // A vertical road of four lanes through the cell: crossing north-south
    // covers the one-lane east-west extent, crossing east-west the four-lane one.
    let city = City::new(
        1,
        1,
        vec![Road::new(vec![lane], vec![]), Road::new(vec![lane], vec![])],
        vec![Road::new(vec![lane; 2], vec![lane; 2]), Road::new(vec![lane; 2], vec![lane; 2])],
    )
    .unwrap();
    assert_eq!(city.intersection_geometry((0, 0)), Some(Geometry { width: 4 * LANE_WIDTH, height: LANE_WIDTH }));
    assert_eq!(rate_of_crossing(&city, (0, 0), AbsoluteDirection::North), 2000 / 35);
    assert_eq!(rate_of_crossing(&city, (0, 0), AbsoluteDirection::East), 2000 / 140);
    assert_eq!(rate_of_crossing(&city, (5, 5), AbsoluteDirection::East), 1000);
}
