use mpi_traffic::common::AbsoluteDirection;
use mpi_traffic::intersection::{phase_table, IntersectionController, IntersectionShape, PHASE_TICKS};

fn greens(c: &IntersectionController) -> Vec<bool> {
    let t = c.current();
    vec![t.north.bits() == 15, t.west.bits() == 15, t.south.bits() == 15, t.east.bits() == 15]
}

#[test]
fn crossroad_alternates_axes() {
    let mut c = IntersectionController::new(IntersectionShape::Crossroad);
    assert_eq!(greens(&c), vec![true, false, true, false]);
    for _ in 0..PHASE_TICKS - 1 {
        c.tick();
    }
    assert_eq!(c.phase(), 0);
    c.tick();
    assert_eq!(c.phase(), 1);
    assert_eq!(greens(&c), vec![false, true, false, true]);
}

#[test]
fn full_cycle_returns_to_start() {
    let shapes = [
        IntersectionShape::Crossroad,
        IntersectionShape::TJunction { missing: AbsoluteDirection::East },
        IntersectionShape::Simple,
    ];
    for shape in shapes {
        let mut c = IntersectionController::new(shape);
        let start = greens(&c);
        let n = c.cycle_length();
        for _ in 0..n {
            c.tick();
        }
        assert_eq!(c.phase(), 0);
        assert_eq!(greens(&c), start);
        assert_eq!(c.shape(), shape);
    }
    assert_eq!(IntersectionController::new(IntersectionShape::Crossroad).cycle_length(), 2 * PHASE_TICKS);
    assert_eq!(IntersectionController::new(IntersectionShape::Simple).cycle_length(), PHASE_TICKS);
}

#[test]
fn t_junction_tables() {
    let shape = IntersectionShape::TJunction { missing: AbsoluteDirection::North };
    let t0 = phase_table(shape, 0);
    assert_eq!((t0.north.bits(), t0.west.bits(), t0.south.bits(), t0.east.bits()), (0, 15, 0, 15));
    let t1 = phase_table(shape, 1);
    assert_eq!((t1.north.bits(), t1.west.bits(), t1.south.bits(), t1.east.bits()), (0, 0, 15, 0));
    let s = phase_table(IntersectionShape::Simple, 0);
    assert_eq!((s.north.bits(), s.west.bits(), s.south.bits(), s.east.bits()), (15, 15, 15, 15));
}
