//! Fixed-point plane geometry: points, centered rectangles, grid rectangles,
//! wall generation for a plain rectangle, and the integer grid walk.
//!
//! Coordinates and lengths are `i64` values in subunits of 1/80 meter. The
//! scale is chosen so that every halving this module and its callers perform
//! (edges from a center and a size, midpoints of wall overlaps, door spans)
//! lands on an integer when the inputs respect the evenness conditions the
//! contracts state.

use crate::direction::Direction;
use crate::level::{Wall, WALL_THICKNESS};
use vstd::prelude::*;

verus! {

/// How many coordinate subunits make one meter.
pub const SUBUNITS: i64 = 80;

/// Every coordinate and length the library works with stays within this
/// bound, which keeps all derived arithmetic far from `i64` overflow.
pub const COORD_LIMIT: i64 = 100_000_000;

pub open spec fn coord_ok(c: int) -> bool {
    -(COORD_LIMIT as int) <= c <= COORD_LIMIT as int
}

/// A point of the plane, in subunits.
#[derive(PartialEq, Eq, Structural, Debug, Clone, Copy, Hash)]
pub struct Point {
    pub x: i64,
    pub y: i64,
}

impl Point {
    pub open spec fn wf(self) -> bool {
        coord_ok(self.x as int) && coord_ok(self.y as int)
    }

    pub fn new(x: i64, y: i64) -> (r: Point)
        ensures
            r.x == x,
            r.y == y,
    {
        Point { x, y }
    }
}

/// An axis-aligned rectangle given by its center point and full width and
/// height. The value type behind walls, doors, room outlines and bounding
/// boxes.
#[derive(PartialEq, Eq, Structural, Debug, Clone, Copy, Hash)]
pub struct CenteredRect {
    pub center: Point,
    pub width: i64,
    pub height: i64,
}

impl CenteredRect {
    /// Well-formed: bounded, non-negative even sizes. Even sizes keep the
    /// edges `center +- size/2` exact.
    pub open spec fn wf(self) -> bool {
        &&& self.center.wf()
        &&& 0 <= self.width <= COORD_LIMIT
        &&& 0 <= self.height <= COORD_LIMIT
        &&& self.width % 2 == 0
        &&& self.height % 2 == 0
    }

    pub open spec fn left_edge_spec(self) -> int {
        self.center.x - self.width as int / 2
    }

    pub open spec fn right_edge_spec(self) -> int {
        self.center.x + self.width as int / 2
    }

    pub open spec fn top_edge_spec(self) -> int {
        self.center.y - self.height as int / 2
    }

    pub open spec fn bottom_edge_spec(self) -> int {
        self.center.y + self.height as int / 2
    }

    pub fn new(center: Point, width: i64, height: i64) -> (r: CenteredRect)
        ensures
            r == (CenteredRect { center, width, height }),
    {
        CenteredRect { center, width, height }
    }

    pub fn left_edge(&self) -> (r: i64)
        requires
            self.wf(),
        ensures
            r == self.left_edge_spec(),
    {
        self.center.x - self.width / 2
    }

    pub fn right_edge(&self) -> (r: i64)
        requires
            self.wf(),
        ensures
            r == self.right_edge_spec(),
    {
        self.center.x + self.width / 2
    }

    pub fn top_edge(&self) -> (r: i64)
        requires
            self.wf(),
        ensures
            r == self.top_edge_spec(),
    {
        self.center.y - self.height / 2
    }

    pub fn bottom_edge(&self) -> (r: i64)
        requires
            self.wf(),
        ensures
            r == self.bottom_edge_spec(),
    {
        self.center.y + self.height / 2
    }
}

/// Flooring division by eight, exact also for negative dividends. Eight
/// subunits make one tenth of a meter, the lattice random placement uses.
pub fn div_floor8(a: i64) -> (r: i64)
    requires
        -1_100_000_000 <= a <= 1_100_000_000,
    ensures
        r == a as int / 8,
        8 * r <= a < 8 * r + 8,
{
    let q: i64 = a / 8;
    let rem: i64 = a % 8;
    if rem != 0 && a < 0 {
        q - 1
    } else {
        q
    }
}

/// Ceiling division by eight, exact also for negative dividends.
pub fn div_ceil8(a: i64) -> (r: i64)
    requires
        -1_000_000_000 <= a <= 1_000_000_000,
    ensures
        r == (a + 7) as int / 8,
        a <= 8 * r < a + 8,
{
    div_floor8(a + 7)
}

/// Flooring division by a positive divisor;
/// exact also for negative dividends.
pub fn div_floor_pos(a: i64, b: i64) -> (r: i64)
    requires
        0 < b <= 1_000_000,
        -100_000_000_000_000 <= a <= 100_000_000_000_000,
    ensures
        r == a as int / b as int,
{
    if a >= 0 {
        a / b
    } else {
        let m: i64 = -a;
        let q: i64 = (m + b - 1) / b;
        proof {
            vstd::arithmetic::div_mod::lemma_fundamental_div_mod(m as int, b as int);
            vstd::arithmetic::div_mod::lemma_mod_division_less_than_divisor(m as int, b as int);
            let md = m as int / b as int;
            let mm = m as int % b as int;
            if mm == 0 {
                assert((m + b - 1) as int / b as int == md) by (nonlinear_arith)
                    requires
                        0 < b,
                        m == b * md + mm,
                        mm == 0,
                        0 <= md,
                ;
                assert(a as int == (-md) * b + 0) by (nonlinear_arith)
                    requires
                        a == -m,
                        m == b * md,
                ;
                vstd::arithmetic::div_mod::lemma_fundamental_div_mod_converse(
                    a as int,
                    b as int,
                    -md,
                    0,
                );
            } else {
                assert((m + b - 1) as int / b as int == md + 1) by (nonlinear_arith)
                    requires
                        0 < b,
                        m == b * md + mm,
                        0 < mm < b,
                        0 <= md,
                ;
                assert(a == (-md - 1) * b + (b - mm)) by (nonlinear_arith)
                    requires
                        a == -m,
                        m == b * md + mm,
                ;
                vstd::arithmetic::div_mod::lemma_fundamental_div_mod_converse(
                    a as int,
                    b as int,
                    -md - 1,
                    b as int - mm,
                );
            }
        }
        -q
    }
}

/// The midpoint of two coordinates whose sum is even, hence exact.
pub fn mid_coord(a: i64, b: i64) -> (r: i64)
    requires
        coord_ok(a as int),
        coord_ok(b as int),
        (a + b) % 2 == 0,
    ensures
        2 * r == a + b,
        r == (a + b) / 2,
{
    (a + b) / 2
}

/// Whether two rectangles intersect as closed boxes: sharing only an edge or
/// a corner counts. Stated over doubled center distances so that no halving
/// is needed.
pub open spec fn rects_touch_spec(a: CenteredRect, b: CenteredRect) -> bool {
    &&& 2 * (a.center.x - b.center.x) <= a.width + b.width
    &&& 2 * (b.center.x - a.center.x) <= a.width + b.width
    &&& 2 * (a.center.y - b.center.y) <= a.height + b.height
    &&& 2 * (b.center.y - a.center.y) <= a.height + b.height
}

pub fn rects_touch(a: &CenteredRect, b: &CenteredRect) -> (r: bool)
    requires
        a.wf(),
        b.wf(),
    ensures
        r == rects_touch_spec(*a, *b),
{
    let dx: i64 = a.center.x - b.center.x;
    let dy: i64 = a.center.y - b.center.y;
    let dx2: i64 = 2 * dx;
    let dy2: i64 = 2 * dy;
    let wsum: i64 = a.width + b.width;
    let hsum: i64 = a.height + b.height;
    dx2 <= wsum && -dx2 <= wsum && dy2 <= hsum && -dy2 <= hsum
}

/// Comfortably inside the coordinate budget: everything the library derives
/// from such a rectangle (walls, doors, floor mats) is well-formed without
/// any bound chasing.
pub open spec fn rect_bounded(r: CenteredRect) -> bool {
    &&& -90_000_000 <= r.center.x <= 90_000_000
    &&& -90_000_000 <= r.center.y <= 90_000_000
    &&& 0 <= r.width <= 1_000_000
    &&& 0 <= r.height <= 1_000_000
}

/// Alignment on the half-subunit lattice that keeps every wall and door
/// midpoint the library derives from a rectangle an exact integer: even
/// center coordinates, sizes divisible by four.
pub open spec fn rect_aligned(r: CenteredRect) -> bool {
    &&& r.center.x % 2 == 0
    &&& r.center.y % 2 == 0
    &&& r.width % 4 == 0
    &&& r.height % 4 == 0
}

/// The full-length wall of side `d` of rectangle `r`: a strip of thickness
/// `WALL_THICKNESS` centered on that side, long enough to cover both corners.
pub open spec fn full_wall_spec(r: CenteredRect, d: Direction) -> CenteredRect {
    match d {
        Direction::South => CenteredRect {
            center: Point { x: r.center.x, y: (r.center.y + r.height as int / 2) as i64 },
            width: (r.width + WALL_THICKNESS) as i64,
            height: WALL_THICKNESS,
        },
        Direction::East => CenteredRect {
            center: Point { x: (r.center.x + r.width as int / 2) as i64, y: r.center.y },
            width: WALL_THICKNESS,
            height: (r.height + WALL_THICKNESS) as i64,
        },
        Direction::West => CenteredRect {
            center: Point { x: (r.center.x - r.width as int / 2) as i64, y: r.center.y },
            width: WALL_THICKNESS,
            height: (r.height + WALL_THICKNESS) as i64,
        },
        _ => CenteredRect {
            center: Point { x: r.center.x, y: (r.center.y - r.height as int / 2) as i64 },
            width: (r.width + WALL_THICKNESS) as i64,
            height: WALL_THICKNESS,
        },
    }
}

/// Builds the one full wall of side `d` of rectangle `r`.
pub fn full_wall(r: &CenteredRect, d: Direction) -> (w: Wall)
    requires
        r.wf(),
        rect_bounded(*r),
        d.is_cardinal(),
    ensures
        w == full_wall_spec(*r, d),
        w.wf(),
{
    match d {
        Direction::North => CenteredRect::new(
            Point::new(r.center.x, r.center.y - r.height / 2),
            r.width + WALL_THICKNESS,
            WALL_THICKNESS,
        ),
        Direction::East => CenteredRect::new(
            Point::new(r.center.x + r.width / 2, r.center.y),
            WALL_THICKNESS,
            r.height + WALL_THICKNESS,
        ),
        Direction::South => CenteredRect::new(
            Point::new(r.center.x, r.center.y + r.height / 2),
            r.width + WALL_THICKNESS,
            WALL_THICKNESS,
        ),
        _ => CenteredRect::new(
            Point::new(r.center.x - r.width / 2, r.center.y),
            WALL_THICKNESS,
            r.height + WALL_THICKNESS,
        ),
    }
}

/// The four full walls of a rectangle, one per cardinal direction, in
/// compass order north, east, south, west.
pub open spec fn plain_walls_spec(r: CenteredRect) -> Seq<(Wall, Direction)> {
    seq![
        (full_wall_spec(r, Direction::North), Direction::North),
        (full_wall_spec(r, Direction::East), Direction::East),
        (full_wall_spec(r, Direction::South), Direction::South),
        (full_wall_spec(r, Direction::West), Direction::West),
    ]
}

/// Generates the four walls of a plain rectangle (no door gap), each
/// `WALL_THICKNESS` thick.
pub fn gen_plain_walls(r: &CenteredRect) -> (walls: Vec<(Wall, Direction)>)
    requires
        r.wf(),
        rect_bounded(*r),
    ensures
        walls@ == plain_walls_spec(*r),
        forall|i: int| 0 <= i < walls@.len() ==> (#[trigger] walls@[i]).0.wf(),
{
    let full_w: i64 = r.width + WALL_THICKNESS;
    let full_h: i64 = r.height + WALL_THICKNESS;
    let half_w: i64 = r.width / 2;
    let half_h: i64 = r.height / 2;
    let mut walls: Vec<(Wall, Direction)> = Vec::new();
    walls.push(
        (
            CenteredRect::new(
                Point::new(r.center.x, r.center.y - half_h),
                full_w,
                WALL_THICKNESS,
            ),
            Direction::North,
        ),
    );
    walls.push(
        (
            CenteredRect::new(
                Point::new(r.center.x + half_w, r.center.y),
                WALL_THICKNESS,
                full_h,
            ),
            Direction::East,
        ),
    );
    walls.push(
        (
            CenteredRect::new(
                Point::new(r.center.x, r.center.y + half_h),
                full_w,
                WALL_THICKNESS,
            ),
            Direction::South,
        ),
    );
    walls.push(
        (
            CenteredRect::new(
                Point::new(r.center.x - half_w, r.center.y),
                WALL_THICKNESS,
                full_h,
            ),
            Direction::West,
        ),
    );
    proof {
        assert(walls@ =~= plain_walls_spec(*r));
    }
    walls
}

/// A rectangle on the integer meter grid: top-left corner plus width and
/// height in whole meters. Used while assembling compound rooms, before the
/// conversion to subunit geometry.
#[derive(PartialEq, Eq, Structural, Debug, Clone, Copy, Hash)]
pub struct GridRect {
    pub width: i64,
    pub height: i64,
    pub top_left: Point,
}

impl GridRect {
    /// Grid rectangles stay small: sizes and corners are bounded well below
    /// the subunit coordinate budget.
    pub open spec fn wf(self) -> bool {
        &&& 0 < self.width <= 1000
        &&& 0 < self.height <= 1000
        &&& -1_000_000 <= self.top_left.x <= 1_000_000
        &&& -1_000_000 <= self.top_left.y <= 1_000_000
    }

    pub fn new(width: i64, height: i64, top_left: Point) -> (r: GridRect)
        ensures
            r == (GridRect { width, height, top_left }),
    {
        GridRect { width, height, top_left }
    }

    /// The same rectangle in subunit geometry. Centers land on multiples of
    /// `SUBUNITS / 2`, so the result is exact.
    pub open spec fn to_rect_spec(self) -> CenteredRect {
        CenteredRect {
            center: Point {
                x: (self.top_left.x * SUBUNITS + self.width * (SUBUNITS as int / 2)) as i64,
                y: (self.top_left.y * SUBUNITS + self.height * (SUBUNITS as int / 2)) as i64,
            },
            width: (self.width * SUBUNITS) as i64,
            height: (self.height * SUBUNITS) as i64,
        }
    }

    pub fn to_rect(&self) -> (r: CenteredRect)
        requires
            self.wf(),
        ensures
            r == self.to_rect_spec(),
            r.wf(),
    {
        CenteredRect::new(
            Point::new(
                self.top_left.x * SUBUNITS + self.width * (SUBUNITS / 2),
                self.top_left.y * SUBUNITS + self.height * (SUBUNITS / 2),
            ),
            self.width * SUBUNITS,
            self.height * SUBUNITS,
        )
    }
}

/// One half turn, in milliradians.
pub const HALF_TURN_MRAD: i64 = 3142;

/// One full turn, in milliradians.
pub const FULL_TURN_MRAD: i64 = 6283;

/// A rational approximation of the sine on `[0, pi]`, scaled by 1000:
/// `16000 t / (5 pi^2 10^6 - 4 t)` with `t = u (pi 10^3 - u)`, exact integer
/// arithmetic in milliradians. Its error stays below two thousandths.
pub open spec fn sin_half_spec(u: int) -> int {
    16000 * (u * (3142 - u)) / (49360820 - 4 * (u * (3142 - u)))
}

/// Sine of an angle in `[0, 2 pi]` milliradians, scaled by 1000.
pub open spec fn sin_mrad_spec(a: int) -> int {
    if a <= 3142 {
        sin_half_spec(a)
    } else {
        -sin_half_spec(a - 3142)
    }
}

/// The approximate sine of `a` milliradians, scaled by 1000.
pub fn sin_mrad(a: i64) -> (r: i64)
    requires
        0 <= a <= FULL_TURN_MRAD,
    ensures
        r == sin_mrad_spec(a as int),
        -1000 <= r <= 1000,
{
    let u: i64 = if a <= HALF_TURN_MRAD {
        a
    } else {
        a - HALF_TURN_MRAD
    };
    proof {
        assert(0 <= u * (3142 - u) && 4 * (u * (3142 - u)) <= 3142 * 3142) by (nonlinear_arith)
            requires
                0 <= u <= 3142,
        ;
    }
    let t: i64 = u * (HALF_TURN_MRAD - u);
    let num: i64 = 16000 * t;
    let den: i64 = 49360820 - 4 * t;
    let s: i64 = num / den;
    proof {
        assert(num / den <= 1000 && 0 <= num / den) by (nonlinear_arith)
            requires
                0 < den,
                0 <= num,
                num <= 1000 * den,
        ;
    }
    if a <= HALF_TURN_MRAD {
        s
    } else {
        -s
    }
}

/// A direction and a distance: a polar vector, with the angle in
/// milliradians. Converted to a grid offset when the compound-room walk
/// needs a target to step toward.
#[derive(PartialEq, Eq, Structural, Debug, Clone, Copy, Hash)]
pub struct PolarVec {
    pub distance: i64,
    pub angle_mrad: i64,
}

/// Division by 1000 that rounds toward zero, as converting a product of a
/// distance and a scaled trigonometric value calls for.
pub open spec fn scale_down_spec(v: int) -> int {
    if v >= 0 {
        v / 1000
    } else {
        -((-v) / 1000)
    }
}

impl PolarVec {
    pub fn new(distance: i64, angle_mrad: i64) -> (r: PolarVec)
        ensures
            r == (PolarVec { distance, angle_mrad }),
    {
        PolarVec { distance, angle_mrad }
    }

    /// The cartesian grid offset this vector reaches, components rounded
    /// toward zero. The cosine is the sine a quarter turn later.
    pub fn to_point(&self) -> (r: Point)
        requires
            0 <= self.distance <= 1_000_000,
            0 <= self.angle_mrad < FULL_TURN_MRAD,
        ensures
            r.x == scale_down_spec(self.distance * sin_mrad_spec(
                (self.angle_mrad + 1571) % (FULL_TURN_MRAD as int),
            )),
            r.y == scale_down_spec(self.distance * sin_mrad_spec(self.angle_mrad as int)),
            -self.distance <= r.x <= self.distance,
            -self.distance <= r.y <= self.distance,
    {
        let cos_a: i64 = sin_mrad((self.angle_mrad + 1571) % FULL_TURN_MRAD);
        let sin_a: i64 = sin_mrad(self.angle_mrad);
        proof {
            assert(-1000 * self.distance <= self.distance * cos_a <= 1000 * self.distance
                && -1000 * self.distance <= self.distance * sin_a <= 1000 * self.distance
                && -1_000_000_000 <= self.distance * cos_a <= 1_000_000_000 && -1_000_000_000
                <= self.distance * sin_a <= 1_000_000_000) by (nonlinear_arith)
                requires
                    0 <= self.distance <= 1_000_000,
                    -1000 <= cos_a <= 1000,
                    -1000 <= sin_a <= 1000,
            ;
        }
        let px: i64 = self.distance * cos_a;
        let py: i64 = self.distance * sin_a;
        proof {
            assert(px / 1000 <= self.distance && (-px) / 1000 <= self.distance && py / 1000
                <= self.distance && (-py) / 1000 <= self.distance) by (nonlinear_arith)
                requires
                    -1000 * self.distance <= px <= 1000 * self.distance,
                    -1000 * self.distance <= py <= 1000 * self.distance,
                    0 <= self.distance,
            ;
        }
        let x: i64 = if px >= 0 {
            px / 1000
        } else {
            -((-px) / 1000)
        };
        let y: i64 = if py >= 0 {
            py / 1000
        } else {
            -((-py) / 1000)
        };
        Point::new(x, y)
    }
}

/// Seq::filter over one more element of a growing prefix.
pub proof fn lemma_filter_take_step<A>(s: Seq<A>, pred: spec_fn(A) -> bool, j: int)
    requires
        0 <= j < s.len(),
    ensures
        s.take(j + 1).filter(pred) == if pred(s[j]) {
            s.take(j).filter(pred).push(s[j])
        } else {
            s.take(j).filter(pred)
        },
{
    reveal(Seq::filter);
    assert(s.take(j + 1) =~= s.take(j).push(s[j]));
    assert(s.take(j + 1).drop_last() =~= s.take(j));
}

/// Filtering keeps a sequence whole when the predicate holds everywhere.
pub proof fn lemma_filter_all<A>(s: Seq<A>, pred: spec_fn(A) -> bool)
    requires
        forall|i: int| 0 <= i < s.len() ==> pred(#[trigger] s[i]),
    ensures
        s.filter(pred) == s,
    decreases s.len(),
{
    reveal(Seq::filter);
    if s.len() > 0 {
        lemma_filter_all(s.drop_last(), pred);
        assert(s =~= s.drop_last().push(s.last()));
        assert(s.filter(pred) =~= s);
    } else {
        assert(s.filter(pred) =~= s);
    }
}

/// Filtering empties a sequence when the predicate holds nowhere.
pub proof fn lemma_filter_none<A>(s: Seq<A>, pred: spec_fn(A) -> bool)
    requires
        forall|i: int| 0 <= i < s.len() ==> !pred(#[trigger] s[i]),
    ensures
        s.filter(pred) == Seq::<A>::empty(),
    decreases s.len(),
{
    reveal(Seq::filter);
    if s.len() > 0 {
        lemma_filter_none(s.drop_last(), pred);
    }
}

pub open spec fn abs_int(v: int) -> int {
    if v >= 0 {
        v
    } else {
        -v
    }
}

/// One step budget more than the walk can ever use on the inputs the
/// generator produces; the recursion is bounded by it so that both the
/// specification and the loop terminate on every input.
pub open spec fn walk_budget(nx: int, ny: int) -> int {
    4 * (nx + ny) + 8
}

/// The points visited after the current one by the error-driven grid walk:
/// at each step the walk compares the fractions of the horizontal and
/// vertical distances covered so far and advances along the lagging axis,
/// diagonally when the two fractions are within half a percent of each
/// other. The comparisons are the exact integer forms of
/// `(0.5 + ix) / nx` against `(0.5 + iy) / ny`.
pub open spec fn walk_rec(
    p: Point,
    nx: int,
    ny: int,
    sx: int,
    sy: int,
    ix: int,
    iy: int,
    fuel: nat,
) -> Seq<Point>
    decreases fuel,
{
    if fuel == 0 || !(ix < nx || iy < ny) {
        seq![]
    } else {
        let lhs = (2 * ix + 1) * ny;
        let rhs = (2 * iy + 1) * nx;
        if 100 * abs_int(lhs - rhs) < nx * ny {
            let p2 = Point { x: (p.x + sx) as i64, y: (p.y + sy) as i64 };
            seq![p2] + walk_rec(p2, nx, ny, sx, sy, ix + 1, iy + 1, (fuel - 1) as nat)
        } else if lhs < rhs {
            let p2 = Point { x: (p.x + sx) as i64, y: p.y };
            seq![p2] + walk_rec(p2, nx, ny, sx, sy, ix + 1, iy, (fuel - 1) as nat)
        } else {
            let p2 = Point { x: p.x, y: (p.y + sy) as i64 };
            seq![p2] + walk_rec(p2, nx, ny, sx, sy, ix, iy + 1, (fuel - 1) as nat)
        }
    }
}

pub open spec fn walk_sign(d: int) -> int {
    if d > 0 {
        1
    } else {
        -1
    }
}

/// The full list of grid points the walk from `p1` toward `p2` visits,
/// starting with `p1` itself.
pub open spec fn walk_grid_spec(p1: Point, p2: Point) -> Seq<Point> {
    let nx = abs_int(p2.x - p1.x);
    let ny = abs_int(p2.y - p1.y);
    seq![p1] + walk_rec(
        p1,
        nx,
        ny,
        walk_sign(p2.x - p1.x),
        walk_sign(p2.y - p1.y),
        0,
        0,
        walk_budget(nx, ny) as nat,
    )
}

/// Walks the integer grid from `p1` toward `p2`, visiting one 8-connected
/// cell per step, and returns every cell visited in order.
pub fn walk_grid(p1: Point, p2: Point) -> (points: Vec<Point>)
    requires
        -1_000_000 <= p1.x <= 1_000_000,
        -1_000_000 <= p1.y <= 1_000_000,
        -1_000_000 <= p2.x <= 1_000_000,
        -1_000_000 <= p2.y <= 1_000_000,
    ensures
        points@ == walk_grid_spec(p1, p2),
        points@.len() >= 1,
        points@[0] == p1,
        forall|i: int| 0 <= i < points@.len() ==> (#[trigger] points@[i]).wf(),
        forall|i: int|
            0 <= i < points@.len() ==> {
                let b = walk_budget(
                    abs_int(p2.x - p1.x),
                    abs_int(p2.y - p1.y),
                );
                -b <= (#[trigger] points@[i]).x - p1.x <= b && -b <= points@[i].y - p1.y <= b
            },
{
    let dx: i64 = p2.x - p1.x;
    let dy: i64 = p2.y - p1.y;
    let nx: i64 = if dx >= 0 {
        dx
    } else {
        -dx
    };
    let ny: i64 = if dy >= 0 {
        dy
    } else {
        -dy
    };
    let sign_x: i64 = if dx > 0 {
        1
    } else {
        -1
    };
    let sign_y: i64 = if dy > 0 {
        1
    } else {
        -1
    };
    let budget: i64 = 4 * (nx + ny) + 8;
    let mut fuel: i64 = budget;
    let mut p: Point = p1;
    let mut points: Vec<Point> = Vec::new();
    points.push(p);
    let mut ix: i64 = 0;
    let mut iy: i64 = 0;
    while fuel > 0 && (ix < nx || iy < ny)
        invariant
            0 <= fuel <= budget,
            budget == walk_budget(nx as int, ny as int),
            0 <= ix,
            0 <= iy,
            ix + fuel <= budget,
            iy + fuel <= budget,
            nx == abs_int(p2.x - p1.x),
            ny == abs_int(p2.y - p1.y),
            sign_x == walk_sign(p2.x - p1.x),
            sign_y == walk_sign(p2.y - p1.y),
            -1_000_000 <= p1.x <= 1_000_000,
            -1_000_000 <= p1.y <= 1_000_000,
            0 <= nx <= 2_000_000,
            0 <= ny <= 2_000_000,
            p.x == p1.x + sign_x * ix,
            p.y == p1.y + sign_y * iy,
            -20_000_000 <= p.x <= 20_000_000,
            -20_000_000 <= p.y <= 20_000_000,
            points@.len() >= 1,
            points@[0] == p1,
            forall|i: int| 0 <= i < points@.len() ==> (#[trigger] points@[i]).wf(),
            forall|i: int|
                0 <= i < points@.len() ==> -budget <= (#[trigger] points@[i]).x - p1.x <= budget
                    && -budget <= points@[i].y - p1.y <= budget,
            walk_grid_spec(p1, p2) == points@ + walk_rec(
                p,
                nx as int,
                ny as int,
                sign_x as int,
                sign_y as int,
                ix as int,
                iy as int,
                fuel as nat,
            ),
        decreases fuel,
    {
        proof {
            assert(0 <= (2 * ix + 1) * ny <= 70_000_000_000_000) by (nonlinear_arith)
                requires
                    0 <= ix <= 16_000_008,
                    0 <= ny <= 2_000_000,
            ;
            assert(0 <= (2 * iy + 1) * nx <= 70_000_000_000_000) by (nonlinear_arith)
                requires
                    0 <= iy <= 16_000_008,
                    0 <= nx <= 2_000_000,
            ;
            assert(0 <= nx * ny <= 4_000_000_000_000) by (nonlinear_arith)
                requires
                    0 <= nx <= 2_000_000,
                    0 <= ny <= 2_000_000,
            ;
        }
        let lhs: i64 = (2 * ix + 1) * ny;
        let rhs: i64 = (2 * iy + 1) * nx;
        let gap: i64 = if lhs >= rhs {
            lhs - rhs
        } else {
            rhs - lhs
        };
        if 100 * gap < nx * ny {
            // next step is diagonal
            p = Point::new(p.x + sign_x, p.y + sign_y);
            ix = ix + 1;
            iy = iy + 1;
        } else if lhs < rhs {
            // next step is horizontal
            p = Point::new(p.x + sign_x, p.y);
            ix = ix + 1;
        } else {
            // next step is vertical
            p = Point::new(p.x, p.y + sign_y);
            iy = iy + 1;
        }
        fuel = fuel - 1;
        points.push(p);
    }
    points
}

} // verus!
