use mpi_traffic::city::City;
use mpi_traffic::common::{AbsoluteDirection, HorizontalOrVertical, LaneDirection, RelativeDirection, TurnRule};
use mpi_traffic::controller::CAR_LENGTH;
use mpi_traffic::road::{Lane, Road};
use mpi_traffic::simulation::{Car, Location, Simulation};

struct Lcg(u64);

impl Lcg {
    fn next(&mut self) -> u64 {
        self.0 = self.0.wrapping_mul(6364136223846793005).wrapping_add(1442695040888963407);
        self.0 >> 33
    }
}

fn two_way(rng: &mut Lcg) -> Option<Road> {
    let rule = |rng: &mut Lcg| {
        let bits = (rng.next() % 15 + 1) as u8;
        Lane { direction_rule: TurnRule::from_bits(bits).unwrap() }
    };
    let high = vec![rule(rng), rule(rng)];
    let low = vec![rule(rng)];
    Road::new(high, low)
}

fn check_apart(cars: &[Car]) {
    for (a, ca) in cars.iter().enumerate() {
        for cb in cars.iter().skip(a + 1) {
            if let (
                Location::OnLane { road_direction: da, road_index: ia, lane_direction: fa, lane_index: la, position: pa },
                Location::OnLane { road_direction: db, road_index: ib, lane_direction: fb, lane_index: lb, position: pb },
            ) = (ca.location, cb.location)
            {
                if da == db && ia == ib && fa == fb && la == lb {
                    assert!(pa + CAR_LENGTH <= pb || pb + CAR_LENGTH <= pa, "{:?} and {:?} overlap", ca, cb);
                }
            }
        }
    }
}

#[test]
fn random_runs_never_overlap() {
    for seed in 1..4u64 {
        let mut rng = Lcg(seed);
        let horizontal: Vec<Option<Road>> = (0..6).map(|_| two_way(&mut rng)).collect();
        let vertical: Vec<Option<Road>> = (0..6).map(|_| two_way(&mut rng)).collect();
        let city = City::new(2, 2, horizontal, vertical).unwrap();
        let intents = [RelativeDirection::Front, RelativeDirection::Left, RelativeDirection::Right, RelativeDirection::Back];
        let mut cars = Vec::new();
        for (axis, count, width) in [(HorizontalOrVertical::Horizontal, 6, 3), (HorizontalOrVertical::Vertical, 6, 2)] {
            for n in 0..count {
                let index = (n / width, n % width);
                for (flow, lanes) in [(LaneDirection::LowToHigh, 2), (LaneDirection::HighToLow, 1)] {
                    for lane in 0..lanes {
                        let mut position = 0;
                        while position <= 360 {
                            if rng.next() % 3 == 0 {
                                cars.push(Car {
                                    location: Location::OnLane {
                                        road_direction: axis,
                                        road_index: index,
                                        lane_direction: flow,
                                        lane_index: lane,
                                        position,
                                    },
                                    intent: intents[(rng.next() % 4) as usize],
                                });
                            }
                            position += 60;
                        }
                    }
                }
            }
        }
        let mut sim = Simulation::new(&city, cars);
        check_apart(sim.cars());
        let mut crossings = 0;
        for _ in 0..3000 {
            let before: Vec<Car> = sim.cars().clone();
            let tables: Vec<_> = [(0, 0), (0, 1), (1, 0), (1, 1)]
                .iter()
                .map(|&cell| (cell, sim.controller(&city, cell).unwrap().current()))
                .collect();
            sim.update(&city);
            check_apart(sim.cars());
            for (old, car) in before.iter().zip(sim.cars().iter()) {
                if let (
                    Location::OnLane { road_direction, road_index, lane_direction, lane_index, .. },
                    Location::InIntersection { intersection_index, to_direction, .. },
                ) = (old.location, car.location)
                {
                    crossings += 1;
                    let heading = AbsoluteDirection::of_lane(road_direction, lane_direction);
                    let turn = heading.should_turn(to_direction);
                    let road = city.road_at(road_direction, road_index).unwrap();
                    assert!(road.lanes_to_direction(lane_direction)[lane_index].direction_rule.permits(turn));
                    let table = tables.iter().find(|(cell, _)| *cell == intersection_index).unwrap().1;
                    assert!(table.get(heading.turn_opposite()).permits(turn));
                }
            }
        }
        assert!(crossings > 0);
    }
}
