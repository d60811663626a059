//! The static road network: a grid of cells joined by roads. Horizontal road
//! `(i, j)` lies on row `i` between cells `(i, j - 1)` and `(i, j)`; vertical
//! road `(i, j)` lies in column `j` between cells `(i - 1, j)` and `(i, j)`.
//! Roads at index 0 or at the far end lead off the board. Going toward a
//! higher row is heading South; toward a higher column, heading West.
use vstd::prelude::*;
use crate::common::{AbsoluteDirection, HorizontalOrVertical, LaneDirection};
use crate::intersection::IntersectionShape;
use crate::road::Road;

verus! {

/// Width of a lane, in decimetres.
pub const LANE_WIDTH: u64 = 35;

/// Distance between the centres of two adjacent cells, in decimetres.
pub const BLOCK_LENGTH: u64 = 600;

/// Most lanes, both directions together, that a road may have. An
/// intersection is as wide as its widest road, and a road loses half of each
/// end intersection from the block length; with this many lanes at most, every
/// road keeps at least a car length: `BLOCK_LENGTH - LANE_WIDTH * MAX_LANES`
/// (75) is at least `CAR_LENGTH` (45), which one lane more would break.
pub const MAX_LANES: usize = 15;

/// The extent of an intersection: `width` from east to west, `height` from
/// north to south, in decimetres.
#[derive(Copy, Clone, Debug, PartialEq, Eq, Structural)]
pub struct Geometry {
    pub width: u64,
    pub height: u64,
}

/// A point of the city, in decimetres: `x` grows with the column index, `y`
/// with the row index. The centre of cell `(i, j)` is one block length past
/// `(j, i)` blocks, so that the roads at the board's edges lie at positive
/// coordinates too.
#[derive(Copy, Clone, Debug, PartialEq, Eq, Structural)]
pub struct Point {
    pub x: u64,
    pub y: u64,
}

/// The centre of cell `(i, j)`, as integer coordinates.
pub open spec fn cell_center(i: int, j: int) -> (int, int) {
    (BLOCK_LENGTH * (j + 1), BLOCK_LENGTH * (i + 1))
}

/// The centre of road `(axis, x, y)`: half way between its two cells.
pub open spec fn road_center_of(axis: HorizontalOrVertical, x: int, y: int) -> (int, int) {
    match axis {
        HorizontalOrVertical::Horizontal => (BLOCK_LENGTH * y + BLOCK_LENGTH / 2, BLOCK_LENGTH * (x + 1)),
        HorizontalOrVertical::Vertical => (BLOCK_LENGTH * (y + 1), BLOCK_LENGTH * x + BLOCK_LENGTH / 2),
    }
}

/// `BLOCK_LENGTH * a + b`, if it fits in a `u64`.
fn scaled(a: u64, b: u64) -> (r: Option<u64>)
    ensures
        r.is_some() <==> BLOCK_LENGTH * a + b <= u64::MAX,
        r matches Some(v) ==> v == BLOCK_LENGTH * a + b,
{
    match BLOCK_LENGTH.checked_mul(a) {
        Some(m) => m.checked_add(b),
        None => {
            assert(BLOCK_LENGTH * a + b > u64::MAX) by (nonlinear_arith)
                requires
                    BLOCK_LENGTH * a > u64::MAX;
            None
        },
    }
}

/// The extent across two roads of `a` and `b` lanes: wide enough for the wider
/// one, and at least one lane wide.
pub open spec fn extent(a: nat, b: nat) -> nat {
    if a >= b && a >= 1 {
        (LANE_WIDTH * a) as nat
    } else if b >= a && b >= 1 {
        (LANE_WIDTH * b) as nat
    } else {
        LANE_WIDTH as nat
    }
}

fn extent_of(a: u64, b: u64) -> (r: u64)
    requires
        a <= MAX_LANES,
        b <= MAX_LANES,
    ensures
        r == extent(a as nat, b as nat),
        r <= LANE_WIDTH * MAX_LANES,
{
    if a >= b && a >= 1 {
        LANE_WIDTH * a
    } else if b >= a && b >= 1 {
        LANE_WIDTH * b
    } else {
        LANE_WIDTH
    }
}

/// Whether every road in `roads` has at most `MAX_LANES` lanes.
pub open spec fn within_lane_limit(roads: Seq<Option<Road>>) -> bool {
    forall|m: int| 0 <= m < roads.len() ==> (#[trigger] roads[m] matches Some(road) ==> road.lanes() <= MAX_LANES)
}

fn check_lane_limit(roads: &Vec<Option<Road>>) -> (r: bool)
    ensures
        r == within_lane_limit(roads@),
{
    let mut m: usize = 0;
    while m < roads.len()
        invariant
            m <= roads@.len(),
            within_lane_limit(roads@.subrange(0, m as int)),
        decreases roads@.len() - m,
    {
        if let Some(road) = &roads[m] {
            let a = road.lanes_to_direction(LaneDirection::LowToHigh).len();
            let b = road.lanes_to_direction(LaneDirection::HighToLow).len();
            if a > MAX_LANES || b > MAX_LANES - a {
                assert(!(roads@[m as int] matches Some(road) ==> road.lanes() <= MAX_LANES));
                return false;
            }
        }
        proof {
            assert forall|q: int| 0 <= q < m + 1 implies (#[trigger] roads@.subrange(0, m + 1)[q] matches Some(road) ==> road.lanes() <= MAX_LANES) by {
                if q < m {
                    assert(roads@.subrange(0, m + 1)[q] == roads@.subrange(0, m as int)[q]);
                }
            }
        }
        m = m + 1;
    }
    assert(roads@.subrange(0, m as int) =~= roads@);
    true
}

/// A grid position `(row, column)`.
pub type GridIndex = (usize, usize);

/// The road on side `s` of cell `(i, j)`.
pub open spec fn side_road(i: int, j: int, s: AbsoluteDirection) -> (HorizontalOrVertical, int, int) {
    match s {
        AbsoluteDirection::North => (HorizontalOrVertical::Vertical, i, j),
        AbsoluteDirection::South => (HorizontalOrVertical::Vertical, i + 1, j),
        AbsoluteDirection::East => (HorizontalOrVertical::Horizontal, i, j),
        AbsoluteDirection::West => (HorizontalOrVertical::Horizontal, i, j + 1),
    }
}

/// The shape of an intersection from which roads exist on its four sides.
pub open spec fn shape_of_sides(north: bool, west: bool, south: bool, east: bool) -> IntersectionShape {
    if north && west && south && east {
        IntersectionShape::Crossroad
    } else if west && south && east {
        IntersectionShape::TJunction { missing: AbsoluteDirection::North }
    } else if north && south && east {
        IntersectionShape::TJunction { missing: AbsoluteDirection::West }
    } else if north && west && east {
        IntersectionShape::TJunction { missing: AbsoluteDirection::South }
    } else if north && west && south {
        IntersectionShape::TJunction { missing: AbsoluteDirection::East }
    } else {
        IntersectionShape::Simple
    }
}

fn shape_from_sides(north: bool, west: bool, south: bool, east: bool) -> (r: IntersectionShape)
    ensures
        r == shape_of_sides(north, west, south, east),
{
    if north && west && south && east {
        IntersectionShape::Crossroad
    } else if west && south && east {
        IntersectionShape::TJunction { missing: AbsoluteDirection::North }
    } else if north && south && east {
        IntersectionShape::TJunction { missing: AbsoluteDirection::West }
    } else if north && west && east {
        IntersectionShape::TJunction { missing: AbsoluteDirection::South }
    } else if north && west && south {
        IntersectionShape::TJunction { missing: AbsoluteDirection::East }
    } else {
        IntersectionShape::Simple
    }
}

/// The flow along a road of orientation `axis` that heads `heading`, if a
/// road of that orientation can head that way.
pub open spec fn flow_heading(axis: HorizontalOrVertical, heading: AbsoluteDirection) -> Option<LaneDirection> {
    match (axis, heading) {
        (HorizontalOrVertical::Vertical, AbsoluteDirection::South) => Some(LaneDirection::LowToHigh),
        (HorizontalOrVertical::Vertical, AbsoluteDirection::North) => Some(LaneDirection::HighToLow),
        (HorizontalOrVertical::Horizontal, AbsoluteDirection::West) => Some(LaneDirection::LowToHigh),
        (HorizontalOrVertical::Horizontal, AbsoluteDirection::East) => Some(LaneDirection::HighToLow),
        _ => None,
    }
}

/// The road, and the flow on it, that a car leaving cell `(i, j)` heading
/// `heading` takes.
pub open spec fn exit_of(i: int, j: int, heading: AbsoluteDirection) -> (HorizontalOrVertical, int, int, LaneDirection) {
    let (a, x, y) = side_road(i, j, heading);
    (a, x, y, flow_heading(a, heading).unwrap())
}

/// See `exit_of`.
pub fn exit_road(index: GridIndex, heading: AbsoluteDirection) -> (r: Option<(HorizontalOrVertical, GridIndex, LaneDirection)>)
    ensures
        r.is_some() <==> (exit_of(index.0 as int, index.1 as int, heading).1 <= usize::MAX
            && exit_of(index.0 as int, index.1 as int, heading).2 <= usize::MAX),
        r matches Some((a, (x, y), l)) ==> exit_of(index.0 as int, index.1 as int, heading) == (a, x as int, y as int, l),
{
    let (i, j) = index;
    match heading {
        AbsoluteDirection::North => Some((HorizontalOrVertical::Vertical, (i, j), LaneDirection::HighToLow)),
        AbsoluteDirection::South => match i.checked_add(1) {
            Some(x) => Some((HorizontalOrVertical::Vertical, (x, j), LaneDirection::LowToHigh)),
            None => None,
        },
        AbsoluteDirection::East => Some((HorizontalOrVertical::Horizontal, (i, j), LaneDirection::HighToLow)),
        AbsoluteDirection::West => match j.checked_add(1) {
            Some(y) => Some((HorizontalOrVertical::Horizontal, (i, y), LaneDirection::LowToHigh)),
            None => None,
        },
    }
}

/// The cell at whose side a lane with flow `flow` on road `(axis, x, y)`
/// ends, when that cell lies on a board of `rows` by `cols` cells.
pub open spec fn lane_end_of(axis: HorizontalOrVertical, x: int, y: int, flow: LaneDirection, rows: int, cols: int) -> Option<(int, int)> {
    let (i, j) = match (axis, flow) {
        (HorizontalOrVertical::Vertical, LaneDirection::LowToHigh) => (x, y),
        (HorizontalOrVertical::Vertical, LaneDirection::HighToLow) => (x - 1, y),
        (HorizontalOrVertical::Horizontal, LaneDirection::LowToHigh) => (x, y),
        (HorizontalOrVertical::Horizontal, LaneDirection::HighToLow) => (x, y - 1),
    };
    if 0 <= i < rows && 0 <= j < cols {
        Some((i, j))
    } else {
        None
    }
}

/// Flat position of `(i, j)` in a row-major table of rows of `width` entries.
pub open spec fn flat(i: int, j: int, width: int) -> int {
    i * width + j
}

/// A cell of the board has a flat position within the board's table.
pub proof fn lemma_flat_bounds(i: int, j: int, height: int, width: int)
    requires
        0 <= i < height,
        0 <= j < width,
    ensures
        0 <= flat(i, j, width) < height * width,
        i * width + j < height * width,
{
    assert(i * width + j < height * width) by (nonlinear_arith)
        requires
            0 <= i < height,
            0 <= j < width,
    ;
    assert(0 <= i * width) by (nonlinear_arith)
        requires
            0 <= i,
            0 <= j < width,
    ;
}

/// The city: `rows` by `cols` cells, the roads between and around them, and
/// for every cell the shape of its intersection, derived from its roads.
#[derive(Debug)]
pub struct City {
    rows: usize,
    cols: usize,
    horizontal: Vec<Option<Road>>,
    vertical: Vec<Option<Road>>,
    shapes: Vec<IntersectionShape>,
}

impl City {
    pub closed spec fn rows_of(self) -> nat {
        self.rows as nat
    }

    pub closed spec fn cols_of(self) -> nat {
        self.cols as nat
    }

    /// The road of orientation `axis` at `(i, j)`; `None` where there is none
    /// or the index lies outside the board.
    pub closed spec fn road(self, axis: HorizontalOrVertical, i: int, j: int) -> Option<Road> {
        match axis {
            HorizontalOrVertical::Horizontal => if 0 <= i < self.rows && 0 <= j <= self.cols {
                self.horizontal@[flat(i, j, self.cols + 1)]
            } else {
                None
            },
            HorizontalOrVertical::Vertical => if 0 <= i <= self.rows && 0 <= j < self.cols {
                self.vertical@[flat(i, j, self.cols as int)]
            } else {
                None
            },
        }
    }

    /// Whether cell `(i, j)` has a road on side `s`.
    pub open spec fn has_side(self, i: int, j: int, s: AbsoluteDirection) -> bool {
        let (a, x, y) = side_road(i, j, s);
        self.road(a, x, y).is_some()
    }

    /// The shape of the intersection at cell `(i, j)`, from its roads.
    pub open spec fn shape_at(self, i: int, j: int) -> IntersectionShape {
        shape_of_sides(
            self.has_side(i, j, AbsoluteDirection::North),
            self.has_side(i, j, AbsoluteDirection::West),
            self.has_side(i, j, AbsoluteDirection::South),
            self.has_side(i, j, AbsoluteDirection::East),
        )
    }

    /// The road tables have the sizes of the board, whose row and column
    /// counts stay below `usize::MAX`.
    pub closed spec fn sized(self) -> bool {
        &&& self.rows < usize::MAX
        &&& self.cols < usize::MAX
        &&& self.horizontal@.len() == self.rows * (self.cols + 1)
        &&& self.vertical@.len() == (self.rows + 1) * self.cols
    }

    pub proof fn lemma_wf_sized(self)
        requires
            self.wf(),
        ensures
            self.sized(),
    {
    }

    /// Table sizes agree with the board, no road has more than `MAX_LANES`
    /// lanes, and each cell's shape agrees with its roads.
    pub closed spec fn wf(self) -> bool {
        &&& self.sized()
        &&& within_lane_limit(self.horizontal@)
        &&& within_lane_limit(self.vertical@)
        &&& self.shapes@.len() == self.rows * self.cols
        &&& forall|i: int, j: int|
            0 <= i < self.rows && 0 <= j < self.cols ==> #[trigger] self.shapes@[flat(i, j, self.cols as int)]
                == self.shape_at(i, j)
    }

    /// The city of `rows` by `cols` cells with the given roads, listed row by
    /// row: `horizontal` holds `rows * (cols + 1)` entries, `vertical` holds
    /// `(rows + 1) * cols`. `None` when a table has another size, when a road
    /// has more than `MAX_LANES` lanes, or when the board is so large that its
    /// row or column count plus one would not fit in a `usize`.
    pub fn new(rows: usize, cols: usize, horizontal: Vec<Option<Road>>, vertical: Vec<Option<Road>>) -> (r: Option<City>)
        ensures
            r.is_some() <==> (rows < usize::MAX && cols < usize::MAX && horizontal@.len() == rows * (cols + 1)
                && vertical@.len() == (rows + 1) * cols && within_lane_limit(horizontal@) && within_lane_limit(vertical@)),
            r matches Some(c) ==> {
                &&& c.wf()
                &&& c.rows_of() == rows
                &&& c.cols_of() == cols
                &&& forall|i: int, j: int| 0 <= i < rows && 0 <= j <= cols ==>
                    #[trigger] c.road(HorizontalOrVertical::Horizontal, i, j) == horizontal@[flat(i, j, cols + 1)]
                &&& forall|i: int, j: int| 0 <= i <= rows && 0 <= j < cols ==>
                    #[trigger] c.road(HorizontalOrVertical::Vertical, i, j) == vertical@[flat(i, j, cols as int)]
            },
    {
        let hl = horizontal.len();
        let vl = vertical.len();
        let w = match cols.checked_add(1) {
            Some(w) => w,
            None => return None,
        };
        let h = match rows.checked_add(1) {
            Some(h) => h,
            None => return None,
        };
        match (rows.checked_mul(w), h.checked_mul(cols)) {
            (Some(nh), Some(nv)) => {
                if hl != nh || vl != nv {
                    return None;
                }
            },
            _ => {
                return None;
            },
        }
        if !check_lane_limit(&horizontal) || !check_lane_limit(&vertical) {
            return None;
        }
        let ghost h0 = horizontal@;
        let ghost v0 = vertical@;
        let mut city = City { rows, cols, horizontal, vertical, shapes: Vec::new() };
        let mut i: usize = 0;
        while i < rows
            invariant
                city.rows == rows,
                city.cols == cols,
                rows < usize::MAX,
                cols < usize::MAX,
                city.horizontal@ == h0,
                city.vertical@ == v0,
                city.horizontal@.len() == rows * (cols + 1),
                city.vertical@.len() == (rows + 1) * cols,
                i <= rows,
                city.shapes@.len() == i * cols,
                forall|a: int, b: int|
                    0 <= a < i && 0 <= b < cols ==> #[trigger] city.shapes@[flat(a, b, cols as int)]
                        == city.shape_at(a, b),
            decreases rows - i,
        {
            let mut j: usize = 0;
            while j < cols
                invariant
                    city.rows == rows,
                    city.cols == cols,
                    rows < usize::MAX,
                    cols < usize::MAX,
                    city.horizontal@ == h0,
                    city.vertical@ == v0,
                    city.horizontal@.len() == rows * (cols + 1),
                    city.vertical@.len() == (rows + 1) * cols,
                    i < rows,
                    j <= cols,
                    city.shapes@.len() == i * cols + j,
                    forall|a: int, b: int|
                        0 <= a < i && 0 <= b < cols ==> #[trigger] city.shapes@[flat(a, b, cols as int)]
                            == city.shape_at(a, b),
                    forall|b: int| 0 <= b < j ==> #[trigger] city.shapes@[flat(i as int, b, cols as int)]
                        == city.shape_at(i as int, b),
                decreases cols - j,
            {
                let north = city.road_at(HorizontalOrVertical::Vertical, (i, j)).is_some();
                let south = city.road_at(HorizontalOrVertical::Vertical, (i + 1, j)).is_some();
                let east = city.road_at(HorizontalOrVertical::Horizontal, (i, j)).is_some();
                let west = city.road_at(HorizontalOrVertical::Horizontal, (i, j + 1)).is_some();
                let shape = shape_from_sides(north, west, south, east);
                proof {
                    assert(flat(i as int, j as int, cols as int) == i * cols + j);
                    assert forall|a: int, b: int| 0 <= a < i && 0 <= b < cols implies flat(a, b, cols as int) < i * cols by {
                        lemma_flat_bounds(a, b, i as int, cols as int);
                    }
                }
                city.shapes.push(shape);
                j = j + 1;
            }
            proof {
                assert(i * cols + cols == (i + 1) * cols) by (nonlinear_arith);
                assert forall|a: int, b: int| 0 <= a < i + 1 && 0 <= b < cols implies #[trigger] city.shapes@[flat(a, b, cols as int)]
                    == city.shape_at(a, b) by {
                }
            }
            i = i + 1;
        }
        Some(city)
    }

    pub fn rows(&self) -> (r: usize)
        ensures
            r == self.rows_of(),
    {
        self.rows
    }

    pub fn cols(&self) -> (r: usize)
        ensures
            r == self.cols_of(),
    {
        self.cols
    }

    /// The shape of the intersection at `index`; `None` outside the board.
    pub fn shape(&self, index: GridIndex) -> (r: Option<IntersectionShape>)
        requires
            self.wf(),
        ensures
            r.is_some() <==> (index.0 < self.rows_of() && index.1 < self.cols_of()),
            r matches Some(s) ==> s == self.shape_at(index.0 as int, index.1 as int),
    {
        let (i, j) = index;
        if i < self.rows && j < self.cols {
            proof {
                lemma_flat_bounds(i as int, j as int, self.rows as int, self.cols as int);
            }
            // The table length is a usize, so the flat position fits in one.
            let _len = self.shapes.len();
            Some(self.shapes[i * self.cols + j])
        } else {
            None
        }
    }

    /// Number of lanes of the road on side `s` of cell `(i, j)`; 0 where there is none.
    pub open spec fn side_lanes(self, i: int, j: int, s: AbsoluteDirection) -> nat {
        let (a, x, y) = side_road(i, j, s);
        match self.road(a, x, y) {
            Some(road) => road.lanes(),
            None => 0,
        }
    }

    /// The extent of the intersection at cell `(i, j)`: from east to west as
    /// wide as the wider of its north and south roads, from north to south as
    /// the wider of its east and west roads.
    pub open spec fn geometry_at(self, i: int, j: int) -> Geometry {
        Geometry {
            width: extent(self.side_lanes(i, j, AbsoluteDirection::North), self.side_lanes(i, j, AbsoluteDirection::South)) as u64,
            height: extent(self.side_lanes(i, j, AbsoluteDirection::East), self.side_lanes(i, j, AbsoluteDirection::West)) as u64,
        }
    }

    /// Half the extent, along a road of orientation `axis`, of the
    /// intersection at cell `(i, j)`; 0 off the board.
    pub open spec fn half_extent(self, axis: HorizontalOrVertical, i: int, j: int) -> nat {
        if 0 <= i < self.rows_of() && 0 <= j < self.cols_of() {
            match axis {
                HorizontalOrVertical::Horizontal => (self.geometry_at(i, j).width / 2) as nat,
                HorizontalOrVertical::Vertical => (self.geometry_at(i, j).height / 2) as nat,
            }
        } else {
            0
        }
    }

    /// Length of road `(axis, x, y)`: the block length, less half of each
    /// intersection at its ends.
    pub open spec fn length_of(self, axis: HorizontalOrVertical, x: int, y: int) -> int {
        match axis {
            HorizontalOrVertical::Horizontal => BLOCK_LENGTH - self.half_extent(axis, x, y - 1) - self.half_extent(axis, x, y),
            HorizontalOrVertical::Vertical => BLOCK_LENGTH - self.half_extent(axis, x - 1, y) - self.half_extent(axis, x, y),
        }
    }

    fn side_lane_count(&self, index: GridIndex, s: AbsoluteDirection) -> (r: u64)
        requires
            self.wf(),
        ensures
            r == self.side_lanes(index.0 as int, index.1 as int, s),
            r <= MAX_LANES,
    {
        let (i, j) = index;
        let (axis, at) = match s {
            AbsoluteDirection::North => (HorizontalOrVertical::Vertical, (i, j)),
            AbsoluteDirection::South => match i.checked_add(1) {
                Some(x) => (HorizontalOrVertical::Vertical, (x, j)),
                None => return 0,
            },
            AbsoluteDirection::East => (HorizontalOrVertical::Horizontal, (i, j)),
            AbsoluteDirection::West => match j.checked_add(1) {
                Some(y) => (HorizontalOrVertical::Horizontal, (i, y)),
                None => return 0,
            },
        };
        match self.road_at(axis, at) {
            Some(road) => {
                proof {
                    let (x, y) = at;
                    match axis {
                        HorizontalOrVertical::Horizontal => {
                            lemma_flat_bounds(x as int, y as int, self.rows as int, self.cols + 1);
                            assert(self.horizontal@[flat(x as int, y as int, self.cols + 1)] matches Some(rd) ==> rd.lanes() <= MAX_LANES);
                        },
                        HorizontalOrVertical::Vertical => {
                            lemma_flat_bounds(x as int, y as int, self.rows + 1, self.cols as int);
                            assert(self.vertical@[flat(x as int, y as int, self.cols as int)] matches Some(rd) ==> rd.lanes() <= MAX_LANES);
                        },
                    }
                }
                let a = road.lanes_to_direction(LaneDirection::LowToHigh).len();
                let b = road.lanes_to_direction(LaneDirection::HighToLow).len();
                (a + b) as u64
            },
            None => 0,
        }
    }

    /// The extent of the intersection at `index`; `None` outside the board.
    pub fn intersection_geometry(&self, index: GridIndex) -> (r: Option<Geometry>)
        requires
            self.wf(),
        ensures
            r.is_some() <==> (index.0 < self.rows_of() && index.1 < self.cols_of()),
            r matches Some(g) ==> g == self.geometry_at(index.0 as int, index.1 as int),
            r matches Some(g) ==> g.width <= LANE_WIDTH * MAX_LANES && g.height <= LANE_WIDTH * MAX_LANES,
    {
        if index.0 < self.rows && index.1 < self.cols {
            let north = self.side_lane_count(index, AbsoluteDirection::North);
            let south = self.side_lane_count(index, AbsoluteDirection::South);
            let east = self.side_lane_count(index, AbsoluteDirection::East);
            let west = self.side_lane_count(index, AbsoluteDirection::West);
            Some(Geometry { width: extent_of(north, south), height: extent_of(east, west) })
        } else {
            None
        }
    }

    fn half_extent_at(&self, axis: HorizontalOrVertical, index: GridIndex) -> (r: u64)
        requires
            self.wf(),
        ensures
            r == self.half_extent(axis, index.0 as int, index.1 as int),
            r <= LANE_WIDTH * MAX_LANES / 2,
    {
        match self.intersection_geometry(index) {
            Some(g) => match axis {
                HorizontalOrVertical::Horizontal => g.width / 2,
                HorizontalOrVertical::Vertical => g.height / 2,
            },
            None => 0,
        }
    }

    /// Length of the road `(axis, index)`, in decimetres; `None` where there is
    /// no road.
    pub fn road_length(&self, axis: HorizontalOrVertical, index: GridIndex) -> (r: Option<u64>)
        requires
            self.wf(),
        ensures
            r.is_some() <==> self.road(axis, index.0 as int, index.1 as int).is_some(),
            r matches Some(n) ==> n == self.length_of(axis, index.0 as int, index.1 as int),
            r matches Some(n) ==> n >= BLOCK_LENGTH - LANE_WIDTH * MAX_LANES,
            r matches Some(n) ==> n >= crate::controller::CAR_LENGTH,
    {
        proof {
            self.lemma_wf_sized();
        }
        if self.road_at(axis, index).is_none() {
            return None;
        }
        let (x, y) = index;
        let (near, far) = match axis {
            HorizontalOrVertical::Horizontal => {
                let near = if y == 0 { 0 } else { self.half_extent_at(axis, (x, y - 1)) };
                (near, self.half_extent_at(axis, (x, y)))
            },
            HorizontalOrVertical::Vertical => {
                let near = if x == 0 { 0 } else { self.half_extent_at(axis, (x - 1, y)) };
                (near, self.half_extent_at(axis, (x, y)))
            },
        };
        Some(BLOCK_LENGTH - near - far)
    }

    /// The centre of the intersection at `index`; `None` outside the board or
    /// where a coordinate would not fit in a `u64`.
    pub fn intersection_center(&self, index: GridIndex) -> (r: Option<Point>)
        ensures
            r.is_some() <==> (index.0 < self.rows_of() && index.1 < self.cols_of()
                && cell_center(index.0 as int, index.1 as int).0 <= u64::MAX
                && cell_center(index.0 as int, index.1 as int).1 <= u64::MAX),
            r matches Some(p) ==> (p.x as int, p.y as int) == cell_center(index.0 as int, index.1 as int),
    {
        let (i, j) = index;
        if i >= self.rows || j >= self.cols {
            return None;
        }
        let x = scaled(j as u64, BLOCK_LENGTH);
        let y = scaled(i as u64, BLOCK_LENGTH);
        match (x, y) {
            (Some(x), Some(y)) => Some(Point { x, y }),
            _ => None,
        }
    }

    /// The centre of the road `(axis, index)`; `None` where there is no road
    /// or where a coordinate would not fit in a `u64`.
    pub fn road_center(&self, axis: HorizontalOrVertical, index: GridIndex) -> (r: Option<Point>)
        requires
            self.wf(),
        ensures
            r.is_some() <==> (self.road(axis, index.0 as int, index.1 as int).is_some()
                && road_center_of(axis, index.0 as int, index.1 as int).0 <= u64::MAX
                && road_center_of(axis, index.0 as int, index.1 as int).1 <= u64::MAX),
            r matches Some(p) ==> (p.x as int, p.y as int) == road_center_of(axis, index.0 as int, index.1 as int),
    {
        proof {
            self.lemma_wf_sized();
        }
        if self.road_at(axis, index).is_none() {
            return None;
        }
        let (i, j) = index;
        let (x, y) = match axis {
            HorizontalOrVertical::Horizontal => (scaled(j as u64, BLOCK_LENGTH / 2), scaled(i as u64, BLOCK_LENGTH)),
            HorizontalOrVertical::Vertical => (scaled(j as u64, BLOCK_LENGTH), scaled(i as u64, BLOCK_LENGTH / 2)),
        };
        match (x, y) {
            (Some(x), Some(y)) => Some(Point { x, y }),
            _ => None,
        }
    }

    /// Number of columns of road indices of orientation `axis`: one more than
    /// the board's for horizontal roads.
    pub open spec fn road_cols(self, axis: HorizontalOrVertical) -> int {
        match axis {
            HorizontalOrVertical::Horizontal => self.cols_of() as int + 1,
            HorizontalOrVertical::Vertical => self.cols_of() as int,
        }
    }

    /// The indices of all roads of orientation `axis`, row by row, each row
    /// from low to high column: each index that holds a road appears once, in
    /// that order, and no other.
    pub fn road_indices(&self, axis: HorizontalOrVertical) -> (r: Vec<GridIndex>)
        requires
            self.wf(),
        ensures
            forall|m: int| 0 <= m < r@.len() ==> #[trigger] self.road(axis, r@[m].0 as int, r@[m].1 as int).is_some(),
            forall|i: int, j: int| #[trigger] self.road(axis, i, j).is_some() ==> exists|m: int|
                0 <= m < r@.len() && r@[m] == (i as usize, j as usize),
            forall|m: int, n: int| 0 <= m < n < r@.len() ==> flat((#[trigger] r@[m]).0 as int, r@[m].1 as int, self.road_cols(axis))
                < flat((#[trigger] r@[n]).0 as int, r@[n].1 as int, self.road_cols(axis)),
    {
        proof {
            self.lemma_wf_sized();
        }
        let (height, width): (usize, usize) = match axis {
            HorizontalOrVertical::Horizontal => (self.rows, self.cols + 1),
            HorizontalOrVertical::Vertical => (self.rows + 1, self.cols),
        };
        let ghost w = self.road_cols(axis);
        let mut r: Vec<GridIndex> = Vec::new();
        let mut i: usize = 0;
        while i < height
            invariant
                self.wf(),
                self.sized(),
                w == width,
                w == self.road_cols(axis),
                height == match axis {
                    HorizontalOrVertical::Horizontal => self.rows as int,
                    HorizontalOrVertical::Vertical => self.rows + 1,
                },
                i <= height,
                forall|m: int| 0 <= m < r@.len() ==> #[trigger] self.road(axis, r@[m].0 as int, r@[m].1 as int).is_some(),
                forall|m: int| 0 <= m < r@.len() ==> (#[trigger] r@[m]).0 < i && r@[m].1 < width,
                forall|a: int, b: int| #[trigger] self.road(axis, a, b).is_some() && a < i ==> exists|m: int|
                    0 <= m < r@.len() && r@[m] == (a as usize, b as usize),
                forall|m: int, n: int| 0 <= m < n < r@.len() ==> flat((#[trigger] r@[m]).0 as int, r@[m].1 as int, w)
                    < flat((#[trigger] r@[n]).0 as int, r@[n].1 as int, w),
            decreases height - i,
        {
            let mut j: usize = 0;
            while j < width
                invariant
                    self.wf(),
                    self.sized(),
                    w == width,
                    w == self.road_cols(axis),
                    height == match axis {
                        HorizontalOrVertical::Horizontal => self.rows as int,
                        HorizontalOrVertical::Vertical => self.rows + 1,
                    },
                    i < height,
                    j <= width,
                    forall|m: int| 0 <= m < r@.len() ==> #[trigger] self.road(axis, r@[m].0 as int, r@[m].1 as int).is_some(),
                    forall|m: int| 0 <= m < r@.len() ==> (#[trigger] r@[m]).0 < i || (r@[m].0 == i && r@[m].1 < j),
                    forall|m: int| 0 <= m < r@.len() ==> (#[trigger] r@[m]).1 < width,
                    forall|a: int, b: int| #[trigger] self.road(axis, a, b).is_some() && (a < i || (a == i && b < j)) ==> exists|m: int|
                        0 <= m < r@.len() && r@[m] == (a as usize, b as usize),
                    forall|m: int, n: int| 0 <= m < n < r@.len() ==> flat((#[trigger] r@[m]).0 as int, r@[m].1 as int, w)
                        < flat((#[trigger] r@[n]).0 as int, r@[n].1 as int, w),
                decreases width - j,
            {
                let ghost before = r@;
                if self.road_at(axis, (i, j)).is_some() {
                    proof {
                        assert forall|m: int| 0 <= m < r@.len() implies flat(r@[m].0 as int, r@[m].1 as int, w)
                            < flat(i as int, j as int, w) by {
                            let (a, b) = r@[m];
                            if (a as int) < i {
                                assert(a * w + b < (a + 1) * w) by (nonlinear_arith)
                                    requires b < w;
                                assert((a + 1) * w <= i * w) by (nonlinear_arith)
                                    requires a + 1 <= i, w >= 0;
                            }
                        }
                    }
                    r.push((i, j));
                }
                proof {
                    assert forall|a: int, b: int| #[trigger] self.road(axis, a, b).is_some() && (a < i || (a == i && b < j + 1))
                        implies exists|m: int| 0 <= m < r@.len() && r@[m] == (a as usize, b as usize) by {
                        if a == i && b == j {
                            assert(r@[r@.len() - 1] == (a as usize, b as usize));
                        } else {
                            let m = choose|m: int| 0 <= m < before.len() && before[m] == (a as usize, b as usize);
                            assert(r@[m] == before[m]);
                        }
                    }
                }
                j = j + 1;
            }
            i = i + 1;
        }
        proof {
            assert forall|a: int, b: int| #[trigger] self.road(axis, a, b).is_some() implies exists|m: int|
                0 <= m < r@.len() && r@[m] == (a as usize, b as usize) by {
                assert(a < i);
            }
        }
        r
    }

    /// See `lane_end_of`.
    pub fn lane_end(&self, axis: HorizontalOrVertical, index: GridIndex, flow: LaneDirection) -> (r: Option<GridIndex>)
        ensures
            r.is_some() <==> lane_end_of(axis, index.0 as int, index.1 as int, flow, self.rows_of() as int, self.cols_of() as int).is_some(),
            r matches Some((i, j)) ==> lane_end_of(axis, index.0 as int, index.1 as int, flow, self.rows_of() as int, self.cols_of() as int) == Some((i as int, j as int)),
    {
        let (x, y) = index;
        let (i, j) = match (axis, flow) {
            (HorizontalOrVertical::Vertical, LaneDirection::LowToHigh) => (x, y),
            (HorizontalOrVertical::Vertical, LaneDirection::HighToLow) => if x == 0 {
                return None;
            } else {
                (x - 1, y)
            },
            (HorizontalOrVertical::Horizontal, LaneDirection::LowToHigh) => (x, y),
            (HorizontalOrVertical::Horizontal, LaneDirection::HighToLow) => if y == 0 {
                return None;
            } else {
                (x, y - 1)
            },
        };
        if i < self.rows && j < self.cols {
            Some((i, j))
        } else {
            None
        }
    }

    /// The road of orientation `axis` at `index`, if there is one.
    pub fn road_at(&self, axis: HorizontalOrVertical, index: GridIndex) -> (r: Option<&Road>)
        requires
            self.sized(),
        ensures
            r.is_some() <==> self.road(axis, index.0 as int, index.1 as int).is_some(),
            r matches Some(x) ==> self.road(axis, index.0 as int, index.1 as int) == Some(*x),
    {
        let (i, j) = index;
        // The table lengths are usizes, so flat positions below them fit in one.
        let _horizontal_len = self.horizontal.len();
        let _vertical_len = self.vertical.len();
        match axis {
            HorizontalOrVertical::Horizontal => {
                if i < self.rows && j <= self.cols {
                    proof {
                        lemma_flat_bounds(i as int, j as int, self.rows as int, self.cols + 1);
                        assert(self.cols + 1 <= self.rows * (self.cols + 1)) by (nonlinear_arith)
                            requires
                                i < self.rows,
                        ;
                    }
                    self.horizontal[i * (self.cols + 1) + j].as_ref()
                } else {
                    None
                }
            },
            HorizontalOrVertical::Vertical => {
                if i <= self.rows && j < self.cols {
                    proof {
                        lemma_flat_bounds(i as int, j as int, self.rows + 1, self.cols as int);
                        assert(self.cols <= (self.rows + 1) * self.cols) by (nonlinear_arith);
                        assert(self.rows * self.cols <= (self.rows + 1) * self.cols) by (nonlinear_arith);
                    }
                    self.vertical[i * self.cols + j].as_ref()
                } else {
                    None
                }
            },
        }
    }
}

} // verus!
