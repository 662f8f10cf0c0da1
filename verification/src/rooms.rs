//! Rooms and doors: door placement along a wall, wall generation with a door
//! gap, floor mats, and randomized room construction.

use crate::direction::Direction;
use crate::geom::{
    full_wall_spec, mid_coord, rect_aligned, rect_bounded, CenteredRect, Point,
};
use crate::level::{Wall, WALL_THICKNESS};
use crate::rng::rand_range;
use vstd::pervasive::unreached;
use vstd::prelude::*;

verus! {

/// Width of every door opening, in subunits (1.1 m).
pub const DOOR_WIDTH: i64 = 88;

/// How far a floor mat extends beyond its door across the wall: one and a
/// half door widths.
pub const FLOORMAT_EXTENT: i64 = 132;

/// A door: a rectangle lying on one of its room's walls, tagged with the
/// cardinal direction that wall faces.
#[derive(PartialEq, Eq, Structural, Debug, Clone, Copy, Hash)]
pub struct Door {
    pub cr: CenteredRect,
    pub facing: Direction,
}

impl Door {
    pub open spec fn wf(self) -> bool {
        &&& self.cr.wf()
        &&& rect_bounded(self.cr)
        &&& rect_aligned(self.cr)
        &&& self.cr.width <= 500_000
        &&& self.cr.height <= 500_000
        &&& self.facing.is_cardinal()
    }

    pub fn new(cr: CenteredRect, facing: Direction) -> (r: Door)
        ensures
            r == (Door { cr, facing }),
    {
        Door { cr, facing }
    }

    /// A door of the given span centered at `center`: it spans `width` along
    /// the wall it faces and one wall thickness across it.
    pub fn of_width(center: Point, width: i64, dir: Direction) -> (r: Door)
        requires
            dir.is_cardinal(),
            center.x % 2 == 0,
            center.y % 2 == 0,
            -90_000_000 <= center.x <= 90_000_000,
            -90_000_000 <= center.y <= 90_000_000,
            0 <= width <= 500_000,
            width % 4 == 0,
        ensures
            r.wf(),
            r.facing == dir,
            r.cr.center == center,
            (dir == Direction::North || dir == Direction::South) ==> r.cr == (CenteredRect {
                center,
                width,
                height: WALL_THICKNESS,
            }),
            (dir == Direction::East || dir == Direction::West) ==> r.cr == (CenteredRect {
                center,
                width: WALL_THICKNESS,
                height: width,
            }),
    {
        match dir {
            Direction::North | Direction::South => Door {
                cr: CenteredRect { center, width, height: WALL_THICKNESS },
                facing: dir,
            },
            _ => Door { cr: CenteredRect { center, width: WALL_THICKNESS, height: width }, facing: dir },
        }
    }

    pub fn center(&self) -> (p: Point)
        ensures
            p == self.cr.center,
    {
        self.cr.center
    }

    pub fn width(&self) -> (w: i64)
        ensures
            w == self.cr.width,
    {
        self.cr.width
    }

    pub fn height(&self) -> (h: i64)
        ensures
            h == self.cr.height,
    {
        self.cr.height
    }

    pub fn left_edge(&self) -> (r: i64)
        requires
            self.cr.wf(),
        ensures
            r == self.cr.left_edge_spec(),
    {
        self.cr.left_edge()
    }

    pub fn right_edge(&self) -> (r: i64)
        requires
            self.cr.wf(),
        ensures
            r == self.cr.right_edge_spec(),
    {
        self.cr.right_edge()
    }

    pub fn top_edge(&self) -> (r: i64)
        requires
            self.cr.wf(),
        ensures
            r == self.cr.top_edge_spec(),
    {
        self.cr.top_edge()
    }

    pub fn bottom_edge(&self) -> (r: i64)
        requires
            self.cr.wf(),
        ensures
            r == self.cr.bottom_edge_spec(),
    {
        self.cr.bottom_edge()
    }
}

/// The door's span widened by `FLOORMAT_EXTENT` across its wall.
pub open spec fn floormat_spec(door: Door) -> CenteredRect {
    if door.cr.width > door.cr.height {
        CenteredRect {
            center: door.cr.center,
            width: door.cr.width,
            height: (door.cr.height + FLOORMAT_EXTENT) as i64,
        }
    } else {
        CenteredRect {
            center: door.cr.center,
            width: (door.cr.width + FLOORMAT_EXTENT) as i64,
            height: door.cr.height,
        }
    }
}

/// Whether the door's span stays strictly within side `d` of rectangle `r`
/// (the side runs one half wall thickness past the corners): exactly the
/// condition under which the two flanking wall segments have positive width.
/// A door flush with a corner would leave a zero-width segment, which is no
/// valid collidable, so it is rejected along with doors that leave the side.
pub open spec fn door_fits_spec(r: CenteredRect, door: Door, d: Direction) -> bool {
    match d {
        Direction::North | Direction::South => {
            &&& r.left_edge_spec() - WALL_THICKNESS as int / 2 < door.cr.left_edge_spec()
            &&& door.cr.right_edge_spec() < r.right_edge_spec() + WALL_THICKNESS as int / 2
        },
        Direction::East | Direction::West => {
            &&& r.top_edge_spec() - WALL_THICKNESS as int / 2 < door.cr.top_edge_spec()
            &&& door.cr.bottom_edge_spec() < r.bottom_edge_spec() + WALL_THICKNESS as int / 2
        },
        _ => false,
    }
}

/// The two wall segments flanking the door on side `d`: together with the
/// door they partition that side exactly.
pub open spec fn door_split_walls_spec(r: CenteredRect, door: Door, d: Direction) -> Seq<
    (Wall, Direction),
> {
    if d == Direction::North || d == Direction::South {
        let yoff = if d == Direction::North {
            r.center.y - r.height as int / 2
        } else {
            r.center.y + r.height as int / 2
        };
        let s1_lf = r.left_edge_spec() - WALL_THICKNESS as int / 2;
        let s1_rt = door.cr.left_edge_spec();
        let s2_lf = door.cr.right_edge_spec();
        let s2_rt = r.right_edge_spec() + WALL_THICKNESS as int / 2;
        seq![
            (
                Wall {
                    center: Point { x: ((s1_lf + s1_rt) / 2) as i64, y: yoff as i64 },
                    width: (s1_rt - s1_lf) as i64,
                    height: WALL_THICKNESS,
                },
                d,
            ),
            (
                Wall {
                    center: Point { x: ((s2_lf + s2_rt) / 2) as i64, y: yoff as i64 },
                    width: (s2_rt - s2_lf) as i64,
                    height: WALL_THICKNESS,
                },
                d,
            ),
        ]
    } else {
        let xoff = if d == Direction::West {
            r.center.x - r.width as int / 2
        } else {
            r.center.x + r.width as int / 2
        };
        let s1_tp = r.top_edge_spec() - WALL_THICKNESS as int / 2;
        let s1_bt = door.cr.top_edge_spec();
        let s2_tp = door.cr.bottom_edge_spec();
        let s2_bt = r.bottom_edge_spec() + WALL_THICKNESS as int / 2;
        seq![
            (
                Wall {
                    center: Point { x: xoff as i64, y: ((s1_tp + s1_bt) / 2) as i64 },
                    width: WALL_THICKNESS,
                    height: (s1_bt - s1_tp) as i64,
                },
                d,
            ),
            (
                Wall {
                    center: Point { x: xoff as i64, y: ((s2_tp + s2_bt) / 2) as i64 },
                    width: WALL_THICKNESS,
                    height: (s2_bt - s2_tp) as i64,
                },
                d,
            ),
        ]
    }
}

/// The walls of side `d`: the two door segments when the door is on this
/// side, the one full wall otherwise.
pub open spec fn side_walls_spec(r: CenteredRect, door: Door, side: Direction, d: Direction) -> Seq<
    (Wall, Direction),
> {
    if side == d {
        door_split_walls_spec(r, door, d)
    } else {
        seq![(full_wall_spec(r, d), d)]
    }
}

/// All walls of a room whose door sits on `side`, in compass order: five
/// entries, the door-bearing side contributing two.
pub open spec fn walls_with_door_spec(r: CenteredRect, door: Door, side: Direction) -> Seq<
    (Wall, Direction),
> {
    side_walls_spec(r, door, side, Direction::North) + side_walls_spec(
        r,
        door,
        side,
        Direction::East,
    ) + side_walls_spec(r, door, side, Direction::South) + side_walls_spec(
        r,
        door,
        side,
        Direction::West,
    )
}

/// The walls contributed by the first `k` sides in compass order.
pub open spec fn walls_prefix_spec(r: CenteredRect, door: Door, side: Direction, k: int) -> Seq<
    (Wall, Direction),
> {
    if k <= 0 {
        Seq::empty()
    } else if k == 1 {
        side_walls_spec(r, door, side, Direction::North)
    } else if k == 2 {
        side_walls_spec(r, door, side, Direction::North) + side_walls_spec(
            r,
            door,
            side,
            Direction::East,
        )
    } else if k == 3 {
        side_walls_spec(r, door, side, Direction::North) + side_walls_spec(
            r,
            door,
            side,
            Direction::East,
        ) + side_walls_spec(r, door, side, Direction::South)
    } else {
        walls_with_door_spec(r, door, side)
    }
}

/// Sizes divisible by four halve to even numbers.
pub proof fn lemma_quarter_half(a: int)
    requires
        a % 4 == 0,
    ensures
        (a / 2) % 2 == 0,
        2 * (a / 2) == a,
{
    assert((a / 2) % 2 == 0 && 2 * (a / 2) == a) by (nonlinear_arith)
        requires
            a % 4 == 0,
    ;
}

/// The door offset along its wall chosen by an offset multiplier in
/// thousandths of the maximal slack: scaled, rounded toward zero, and made
/// even so the flanking wall midpoints stay exact.
pub open spec fn door_offset_spec(slack_half: int, m: int) -> int {
    let mag = (slack_half * crate::geom::abs_int(m)) / 1000;
    let mag2 = 2 * (mag / 2);
    if m >= 0 {
        mag2
    } else {
        -mag2
    }
}

/// The door that `gen_door` places on side `side` of the given room box with
/// offset multiplier `m` thousandths.
pub open spec fn gen_door_spec(
    c_x: int,
    c_y: int,
    room_w: int,
    room_h: int,
    side: Direction,
    m: int,
) -> Door {
    if side == Direction::North || side == Direction::South {
        let off = door_offset_spec((room_w - DOOR_WIDTH - WALL_THICKNESS) / 2, m);
        let y = if side == Direction::North {
            c_y - room_h / 2
        } else {
            c_y + room_h / 2
        };
        Door {
            cr: CenteredRect {
                center: Point { x: (c_x + off) as i64, y: y as i64 },
                width: DOOR_WIDTH,
                height: WALL_THICKNESS,
            },
            facing: side,
        }
    } else {
        let off = door_offset_spec((room_h - DOOR_WIDTH - WALL_THICKNESS) / 2, m);
        let x = if side == Direction::West {
            c_x - room_w / 2
        } else {
            c_x + room_w / 2
        };
        Door {
            cr: CenteredRect {
                center: Point { x: x as i64, y: (c_y + off) as i64 },
                width: WALL_THICKNESS,
                height: DOOR_WIDTH,
            },
            facing: side,
        }
    }
}

/// Scales the slack by the offset multiplier, rounding toward zero and then
/// down to an even value.
fn door_offset(slack_half: i64, m: i64) -> (off: i64)
    requires
        0 <= slack_half <= 500_000,
        -1000 <= m <= 1000,
    ensures
        off == door_offset_spec(slack_half as int, m as int),
        -slack_half <= off <= slack_half,
        off % 2 == 0,
{
    let am: i64 = if m < 0 {
        -m
    } else {
        m
    };
    proof {
        assert(0 <= slack_half * am <= 1000 * slack_half) by (nonlinear_arith)
            requires
                0 <= slack_half <= 500_000,
                0 <= am <= 1000,
        ;
        assert((slack_half * am) / 1000 <= slack_half && 0 <= (slack_half * am) / 1000)
            by (nonlinear_arith)
            requires
                0 <= slack_half * am <= 1000 * slack_half,
                0 <= slack_half,
        ;
    }
    let mag: i64 = slack_half * am / 1000;
    let mag2: i64 = 2 * (mag / 2);
    if m < 0 {
        -mag2
    } else {
        mag2
    }
}

/// The two wall segments flanking a door on the north or south side; fails
/// exactly when the door leaves the side.
fn split_walls_ns(rect: &CenteredRect, door: Door, d: Direction) -> (r: Result<(Wall, Wall), ()>)
    requires
        rect.wf(),
        rect_aligned(*rect),
        rect_bounded(*rect),
        door.wf(),
        d == Direction::North || d == Direction::South,
    ensures
        r is Ok <==> door_fits_spec(*rect, door, d),
        r matches Ok(p) ==> door_split_walls_spec(*rect, door, d) == seq![(p.0, d), (p.1, d)]
            && p.0.wf() && p.1.wf(),
{
    proof {
        lemma_quarter_half(rect.width as int);
        lemma_quarter_half(rect.height as int);
        lemma_quarter_half(door.cr.width as int);
        lemma_quarter_half(door.cr.height as int);
    }
    let yoff: i64 = if d == Direction::North {
        rect.center.y - rect.height / 2
    } else {
        rect.center.y + rect.height / 2
    };
    let s1_lf: i64 = rect.left_edge() - WALL_THICKNESS / 2;
    let s1_rt: i64 = door.left_edge();
    let s2_lf: i64 = door.right_edge();
    let s2_rt: i64 = rect.right_edge() + WALL_THICKNESS / 2;
    if s1_rt - s1_lf <= 0 || s2_rt - s2_lf <= 0 {
        return Err(());
    }
    let s1c: i64 = mid_coord(s1_lf, s1_rt);
    let s2c: i64 = mid_coord(s2_lf, s2_rt);
    let side1: Wall = CenteredRect::new(Point::new(s1c, yoff), s1_rt - s1_lf, WALL_THICKNESS);
    let side2: Wall = CenteredRect::new(Point::new(s2c, yoff), s2_rt - s2_lf, WALL_THICKNESS);
    proof {
        assert(door_split_walls_spec(*rect, door, d) =~= seq![(side1, d), (side2, d)]);
    }
    Ok((side1, side2))
}

/// The two wall segments flanking a door on the east or west side; fails
/// exactly when the door leaves the side.
fn split_walls_ew(rect: &CenteredRect, door: Door, d: Direction) -> (r: Result<(Wall, Wall), ()>)
    requires
        rect.wf(),
        rect_aligned(*rect),
        rect_bounded(*rect),
        door.wf(),
        d == Direction::East || d == Direction::West,
    ensures
        r is Ok <==> door_fits_spec(*rect, door, d),
        r matches Ok(p) ==> door_split_walls_spec(*rect, door, d) == seq![(p.0, d), (p.1, d)]
            && p.0.wf() && p.1.wf(),
{
    proof {
        lemma_quarter_half(rect.width as int);
        lemma_quarter_half(rect.height as int);
        lemma_quarter_half(door.cr.width as int);
        lemma_quarter_half(door.cr.height as int);
    }
    let xoff: i64 = if d == Direction::West {
        rect.center.x - rect.width / 2
    } else {
        rect.center.x + rect.width / 2
    };
    let s1_tp: i64 = rect.top_edge() - WALL_THICKNESS / 2;
    let s1_bt: i64 = door.top_edge();
    let s2_tp: i64 = door.bottom_edge();
    let s2_bt: i64 = rect.bottom_edge() + WALL_THICKNESS / 2;
    if s1_bt - s1_tp <= 0 || s2_bt - s2_tp <= 0 {
        return Err(());
    }
    let s1c: i64 = mid_coord(s1_tp, s1_bt);
    let s2c: i64 = mid_coord(s2_tp, s2_bt);
    let side1: Wall = CenteredRect::new(Point::new(xoff, s1c), WALL_THICKNESS, s1_bt - s1_tp);
    let side2: Wall = CenteredRect::new(Point::new(xoff, s2c), WALL_THICKNESS, s2_bt - s2_tp);
    proof {
        assert(door_split_walls_spec(*rect, door, d) =~= seq![(side1, d), (side2, d)]);
    }
    Ok((side1, side2))
}

/// A room: its outline, its one door, the walls of its four sides with the
/// door-bearing side split in two, and whether it belongs to a compound
/// cluster.
#[derive(Debug, Clone)]
pub struct Room {
    pub cr: CenteredRect,
    pub door: Door,
    /// Pairs of a wall and the side of the room that wall belongs to.
    pub walls: Vec<(Wall, Direction)>,
    pub is_compound: bool,
}

impl Room {
    pub open spec fn wf(self) -> bool {
        &&& self.cr.wf()
        &&& rect_aligned(self.cr)
        &&& rect_bounded(self.cr)
        &&& self.door.wf()
        &&& door_fits_spec(self.cr, self.door, self.door.facing)
        &&& self.walls@ == walls_with_door_spec(self.cr, self.door, self.door.facing)
        &&& forall|i: int|
            0 <= i < self.walls@.len() ==> (#[trigger] self.walls@[i]).0.wf()
    }

    /// Builds a room from its outline and door; fails exactly when the door
    /// does not fit within its side.
    pub fn new(center: Point, width: i64, height: i64, door: Door, is_compound: bool) -> (r:
        Result<Room, ()>)
        requires
            (CenteredRect { center, width, height }).wf(),
            rect_aligned(CenteredRect { center, width, height }),
            rect_bounded(CenteredRect { center, width, height }),
            door.wf(),
        ensures
            r is Ok <==> door_fits_spec(
                CenteredRect { center, width, height },
                door,
                door.facing,
            ),
            r matches Ok(room) ==> room.wf() && room.cr == (CenteredRect { center, width, height })
                && room.door == door && room.is_compound == is_compound,
    {
        let cr = CenteredRect::new(center, width, height);
        match Room::gen_walls(&cr, door, door.facing) {
            Ok(walls) => Ok(Room { cr, door, walls, is_compound }),
            Err(()) => Err(()),
        }
    }

    /// Generates the walls of `rect`, cutting a gap for `door` into side
    /// `door_side`: that side becomes two flanking segments, every other
    /// side one full wall. Fails exactly when a flanking segment would not
    /// have positive width, that is when the door leaves its side or sits
    /// flush with a corner.
    pub fn gen_walls(rect: &CenteredRect, door: Door, door_side: Direction) -> (r: Result<
        Vec<(Wall, Direction)>,
        (),
    >)
        requires
            rect.wf(),
            rect_aligned(*rect),
            rect_bounded(*rect),
            door.wf(),
            door_side.is_cardinal(),
        ensures
            r is Ok <==> door_fits_spec(*rect, door, door_side),
            r matches Ok(walls) ==> walls@ == walls_with_door_spec(*rect, door, door_side) && (
            forall|i: int| 0 <= i < walls@.len() ==> (#[trigger] walls@[i]).0.wf()),
    {
        let mut walls: Vec<(Wall, Direction)> = Vec::new();
        let dirs: Vec<Direction> = Direction::compass();
        let mut k: usize = 0;
        while k < 4
            invariant
                dirs@ == seq![
                    Direction::North,
                    Direction::East,
                    Direction::South,
                    Direction::West,
                ],
                0 <= k <= 4,
                rect.wf(),
                rect_aligned(*rect),
                rect_bounded(*rect),
                door.wf(),
                door_side.is_cardinal(),
                walls@ == walls_prefix_spec(*rect, door, door_side, k as int),
                forall|i: int| 0 <= i < walls@.len() ==> (#[trigger] walls@[i]).0.wf(),
                k >= 1 && door_side == Direction::North ==> door_fits_spec(
                    *rect,
                    door,
                    door_side,
                ),
                k >= 2 && door_side == Direction::East ==> door_fits_spec(*rect, door, door_side),
                k >= 3 && door_side == Direction::South ==> door_fits_spec(*rect, door, door_side),
                k >= 4 && door_side == Direction::West ==> door_fits_spec(*rect, door, door_side),
            decreases 4 - k,
        {
            let d: Direction = dirs[k];
            let ghost prev: Seq<(Wall, Direction)> = walls@;
            let has_door: bool = door_side == d;
            if has_door {
                let split: Result<(Wall, Wall), ()> = match d {
                    Direction::North | Direction::South => split_walls_ns(rect, door, d),
                    _ => split_walls_ew(rect, door, d),
                };
                match split {
                    Ok((side1, side2)) => {
                        walls.push((side1, d));
                        walls.push((side2, d));
                    },
                    Err(()) => {
                        return Err(());
                    },
                }
            } else {
                let wall: Wall = crate::geom::full_wall(rect, d);
                walls.push((wall, d));
            }
            proof {
                assert(walls@ =~= prev + side_walls_spec(*rect, door, door_side, d));
                assert(prev + side_walls_spec(*rect, door, door_side, d) =~= walls_prefix_spec(
                    *rect,
                    door,
                    door_side,
                    k + 1,
                ));
            }
            k = k + 1;
        }
        Ok(walls)
    }

    /// Places a door on side `side` of the given room box. The offset
    /// multiplier, in thousandths of the maximal slack, slides the door
    /// along the wall; the slack keeps it off the corners.
    pub fn gen_door(
        c_x: i64,
        c_y: i64,
        room_w: i64,
        room_h: i64,
        side: Direction,
        offset_permille: i64,
    ) -> (door: Door)
        requires
            side.is_cardinal(),
            -1000 <= offset_permille <= 1000,
            c_x % 2 == 0,
            c_y % 2 == 0,
            room_w % 4 == 0,
            room_h % 4 == 0,
            0 <= room_w <= 500_000,
            0 <= room_h <= 500_000,
            -89_000_000 <= c_x <= 89_000_000,
            -89_000_000 <= c_y <= 89_000_000,
            (side == Direction::North || side == Direction::South) ==> room_w >= DOOR_WIDTH
                + WALL_THICKNESS,
            (side == Direction::East || side == Direction::West) ==> room_h >= DOOR_WIDTH
                + WALL_THICKNESS,
        ensures
            door == gen_door_spec(
                c_x as int,
                c_y as int,
                room_w as int,
                room_h as int,
                side,
                offset_permille as int,
            ),
            door.wf(),
            door.facing == side,
            -(room_w as int / 2) <= door.cr.center.x - c_x <= room_w as int / 2,
            -(room_h as int / 2) <= door.cr.center.y - c_y <= room_h as int / 2,
            door_fits_spec(
                CenteredRect { center: Point { x: c_x, y: c_y }, width: room_w, height: room_h },
                door,
                side,
            ),
    {
        match side {
            Direction::North | Direction::South => gen_door_ns(
                c_x,
                c_y,
                room_w,
                room_h,
                side,
                offset_permille,
            ),
            _ => gen_door_ew(c_x, c_y, room_w, room_h, side, offset_permille),
        }
    }

    /// A room with its door centered on the wall of the given side.
    #[verifier::rlimit(100)]
    #[verifier::spinoff_prover]
    pub fn new_with_centered_door(
        center: Point,
        width: i64,
        height: i64,
        door_side: Direction,
    ) -> (r: Result<Room, ()>)
        requires
            door_side.is_cardinal(),
            center.x % 2 == 0,
            center.y % 2 == 0,
            width % 4 == 0,
            height % 4 == 0,
            0 <= width <= 500_000,
            0 <= height <= 500_000,
            -89_000_000 <= center.x <= 89_000_000,
            -89_000_000 <= center.y <= 89_000_000,
            (door_side == Direction::North || door_side == Direction::South) ==> width
                >= DOOR_WIDTH + WALL_THICKNESS,
            (door_side == Direction::East || door_side == Direction::West) ==> height
                >= DOOR_WIDTH + WALL_THICKNESS,
        ensures
            r is Ok,
            r matches Ok(room) ==> room.wf() && room.cr == (CenteredRect {
                center,
                width,
                height,
            }) && room.door == gen_door_spec(
                center.x as int,
                center.y as int,
                width as int,
                height as int,
                door_side,
                0,
            ) && !room.is_compound,
    {
        let door = Room::gen_door(center.x, center.y, width, height, door_side, 0);
        Room::new(center, width, height, door, false)
    }

    /// The no-go rectangle reserved in front of and behind this room's door
    /// during placement: the door's span widened by one and a half door
    /// widths across the wall, so that the player always fits through.
    pub fn floormat(&self) -> (r: CenteredRect)
        requires
            self.door.wf(),
        ensures
            r == floormat_spec(self.door),
            r.wf(),
            rect_bounded(r),
    {
        let wider: bool = self.door.cr.width > self.door.cr.height;
        if wider {
            CenteredRect::new(
                self.door.cr.center,
                self.door.cr.width,
                self.door.cr.height + FLOORMAT_EXTENT,
            )
        } else {
            CenteredRect::new(
                self.door.cr.center,
                self.door.cr.width + FLOORMAT_EXTENT,
                self.door.cr.height,
            )
        }
    }

    /// Moves the whole room, walls and door included, by the given even
    /// offsets.
    #[verifier::rlimit(100)]
    #[verifier::spinoff_prover]
    pub fn translate(&mut self, x: i64, y: i64)
        requires
            old(self).wf(),
            x % 2 == 0,
            y % 2 == 0,
            -90_000_000 <= old(self).cr.center.x + x <= 90_000_000,
            -90_000_000 <= old(self).cr.center.y + y <= 90_000_000,
            -90_000_000 <= old(self).door.cr.center.x + x <= 90_000_000,
            -90_000_000 <= old(self).door.cr.center.y + y <= 90_000_000,
        ensures
            final(self).wf(),
            final(self).cr == (CenteredRect {
                center: Point {
                    x: (old(self).cr.center.x + x) as i64,
                    y: (old(self).cr.center.y + y) as i64,
                },
                width: old(self).cr.width,
                height: old(self).cr.height,
            }),
            final(self).door == (Door {
                cr: CenteredRect {
                    center: Point {
                        x: (old(self).door.cr.center.x + x) as i64,
                        y: (old(self).door.cr.center.y + y) as i64,
                    },
                    width: old(self).door.cr.width,
                    height: old(self).door.cr.height,
                },
                facing: old(self).door.facing,
            }),
            final(self).is_compound == old(self).is_compound,
            final(self).walls@ == walls_with_door_spec(
                final(self).cr,
                final(self).door,
                final(self).door.facing,
            ),
    {
        self.cr = CenteredRect::new(
            Point::new(self.cr.center.x + x, self.cr.center.y + y),
            self.cr.width,
            self.cr.height,
        );
        self.door = Door::new(
            CenteredRect::new(
                Point::new(self.door.cr.center.x + x, self.door.cr.center.y + y),
                self.door.cr.width,
                self.door.cr.height,
            ),
            self.door.facing,
        );
        // The walls are a pure function of the outline and the door, so the
        // shifted walls are simply regenerated.
        match Room::gen_walls(&self.cr, self.door, self.door.facing) {
            Ok(walls) => {
                self.walls = walls;
            },
            Err(()) => {
                // A shifted door fits exactly where the original one did.
                unreached()
            },
        }
    }

    /// A random single room: its center drawn uniformly from the tenth-meter
    /// lattice within the given ranges, its sides from a clamped bell-shaped
    /// distribution, its door on a uniformly random side at a uniformly
    /// random offset.
    pub fn new_rand(x_range: (i64, i64), y_range: (i64, i64)) -> (room: Room)
        requires
            -80_000_000 <= x_range.0 <= x_range.1 <= 80_000_000,
            -80_000_000 <= y_range.0 <= y_range.1 <= 80_000_000,
            x_range.1 - x_range.0 >= 8,
            y_range.1 - y_range.0 >= 8,
        ensures
            room.wf(),
            !room.is_compound,
            x_range.0 <= room.cr.center.x <= x_range.1,
            y_range.0 <= room.cr.center.y <= y_range.1,
            x_range.0 - 1200 <= room.door.cr.center.x <= x_range.1 + 1200,
            y_range.0 - 1200 <= room.door.cr.center.y <= y_range.1 + 1200,
            176 <= room.cr.width <= 2400,
            176 <= room.cr.height <= 2400,
    {
        let kx_lo: i64 = crate::geom::div_ceil8(x_range.0);
        let kx_hi: i64 = crate::geom::div_floor8(x_range.1);
        let ky_lo: i64 = crate::geom::div_ceil8(y_range.0);
        let ky_hi: i64 = crate::geom::div_floor8(y_range.1);
        let c_x: i64 = 8 * rand_range(kx_lo, kx_hi + 1);
        let c_y: i64 = 8 * rand_range(ky_lo, ky_hi + 1);
        let (room_w, room_h) = Room::rand_room_box();
        let side: Direction = {
            let dirs: Vec<Direction> = Direction::compass();
            let pick: i64 = rand_range(0, 4);
            dirs[pick as usize]
        };
        let door: Door = Room::gen_rand_door(c_x, c_y, room_w, room_h, side);
        match Room::new(Point::new(c_x, c_y), room_w, room_h, door, false) {
            Ok(room) => room,
            Err(()) => unreached(),
        }
    }

    /// A random door side offset in thousandths of the available slack.
    fn gen_rand_door(c_x: i64, c_y: i64, room_w: i64, room_h: i64, side: Direction) -> (door: Door)
        requires
            side.is_cardinal(),
            c_x % 2 == 0,
            c_y % 2 == 0,
            room_w % 4 == 0,
            room_h % 4 == 0,
            176 <= room_w <= 500_000,
            176 <= room_h <= 500_000,
            -89_000_000 <= c_x <= 89_000_000,
            -89_000_000 <= c_y <= 89_000_000,
        ensures
            door.wf(),
            door.facing == side,
            -(room_w as int / 2) <= door.cr.center.x - c_x <= room_w as int / 2,
            -(room_h as int / 2) <= door.cr.center.y - c_y <= room_h as int / 2,
            door_fits_spec(
                CenteredRect { center: Point { x: c_x, y: c_y }, width: room_w, height: room_h },
                door,
                side,
            ),
    {
        let offset_mul: i64 = rand_range(-1000, 1000);
        Room::gen_door(c_x, c_y, room_w, room_h, side, offset_mul)
    }

    /// Random room extents: approximately normal around five meters with a
    /// spread of three (a sum of uniform draws), folded positive and clamped
    /// to at least twice the door width and at most thirty meters.
    fn rand_room_box() -> (r: (i64, i64))
        ensures
            176 <= r.0 <= 2400,
            r.0 % 8 == 0,
            176 <= r.1 <= 2400,
            r.1 % 8 == 0,
    {
        let w = Room::rand_dim();
        let h = Room::rand_dim();
        (w, h)
    }

    /// One random extent in subunits, on the tenth-meter lattice.
    fn rand_dim() -> (r: i64)
        ensures
            176 <= r <= 2400,
            r % 8 == 0,
    {
        let mut sum: i64 = 0;
        let mut k: usize = 0;
        while k < 12
            invariant
                0 <= k <= 12,
                0 <= sum <= 29 * k,
            decreases 12 - k,
        {
            sum = sum + rand_range(0, 30);
            k = k + 1;
        }
        // In tenths of a meter: mean 50, spread about 30.
        let centered: i64 = sum - 124;
        let folded: i64 = if centered < 0 {
            -centered
        } else {
            centered
        };
        let clamped: i64 = if folded < 22 {
            22
        } else if folded > 300 {
            300
        } else {
            folded
        };
        clamped * 8
    }

    /// This room's position in the world: its center.
    pub fn location(&self) -> (p: Point)
        ensures
            p == self.cr.center,
    {
        self.cr.center
    }

    /// The collidable compound shape of this room: its wall rectangles,
    /// positioned relative to the room center, so that placing the room is a
    /// single translation.
    pub fn shape(&self) -> (parts: Vec<CenteredRect>)
        requires
            self.wf(),
        ensures
            parts@.len() == self.walls@.len(),
            parts@ == room_shape_spec(*self),
            forall|i: int|
                0 <= i < parts@.len() ==> #[trigger] parts@[i] == rel_rect_spec(
                    self.walls@[i].0,
                    self.cr.center,
                ),
            forall|i: int|
                0 <= i < parts@.len() ==> (#[trigger] parts@[i]).wf() && -45_000_000
                    <= parts@[i].center.x <= 45_000_000 && -45_000_000 <= parts@[i].center.y
                    <= 45_000_000,
    {
        proof {
            lemma_walls_in_box(*self);
        }
        let mut parts: Vec<CenteredRect> = Vec::new();
        let mut i: usize = 0;
        while i < self.walls.len()
            invariant
                self.wf(),
                0 <= i <= self.walls@.len(),
                parts@.len() == i,
                forall|k: int|
                    0 <= k < i ==> #[trigger] parts@[k] == rel_rect_spec(
                        self.walls@[k].0,
                        self.cr.center,
                    ),
                forall|k: int|
                    0 <= k < i ==> (#[trigger] parts@[k]).wf() && -45_000_000 <= parts@[k].center.x
                        <= 45_000_000 && -45_000_000 <= parts@[k].center.y <= 45_000_000,
                forall|k: int|
                    0 <= k < self.walls@.len() ==> {
                        let w = (#[trigger] self.walls@[k]).0;
                        &&& self.cr.center.x - self.cr.width as int / 2 - WALL_THICKNESS
                            <= w.center.x <= self.cr.center.x + self.cr.width as int / 2
                            + WALL_THICKNESS
                        &&& self.cr.center.y - self.cr.height as int / 2 - WALL_THICKNESS
                            <= w.center.y <= self.cr.center.y + self.cr.height as int / 2
                            + WALL_THICKNESS
                    },
            decreases self.walls@.len() - i,
        {
            let wd: (Wall, Direction) = *self.walls.get(i).unwrap();
            let w: Wall = wd.0;
            parts.push(
                CenteredRect::new(
                    Point::new(w.center.x - self.cr.center.x, w.center.y - self.cr.center.y),
                    w.width,
                    w.height,
                ),
            );
            i = i + 1;
        }
        proof {
            assert(parts@ =~= room_shape_spec(*self));
        }
        parts
    }

    /// The collision group every room wall is registered under.
    pub fn collision_group(&self) -> (r: crate::collision::CollisionGroups)
        ensures
            r.wf(),
            forall|i: int|
                0 <= i < crate::collision::GROUP_COUNT ==> #[trigger] r.membership@[i] == (i == 1),
            forall|i: int| 0 <= i < crate::collision::GROUP_COUNT ==> #[trigger] r.whitelist@[i],
            forall|i: int|
                0 <= i < crate::collision::GROUP_COUNT ==> !(#[trigger] r.blacklist@[i]),
    {
        crate::collision::CollGroups::wall_cg()
    }

    /// How this room's shape is tagged in the collision world.
    pub fn coltype(&self) -> (r: crate::collision::CollidableType)
        ensures
            r == if self.is_compound {
                crate::collision::CollidableType::CompoundRoomWall
            } else {
                crate::collision::CollidableType::RoomWall
            },
    {
        if self.is_compound {
            crate::collision::CollidableType::CompoundRoomWall
        } else {
            crate::collision::CollidableType::RoomWall
        }
    }
}

/// Door placement on a north or south wall.
#[verifier::rlimit(100)]
#[verifier::spinoff_prover]
fn gen_door_ns(c_x: i64, c_y: i64, room_w: i64, room_h: i64, side: Direction, m: i64) -> (door:
    Door)
    requires
        side == Direction::North || side == Direction::South,
        -1000 <= m <= 1000,
        c_x % 2 == 0,
        c_y % 2 == 0,
        room_w % 4 == 0,
        room_h % 4 == 0,
        0 <= room_w <= 500_000,
        0 <= room_h <= 500_000,
        -89_000_000 <= c_x <= 89_000_000,
        -89_000_000 <= c_y <= 89_000_000,
        room_w >= DOOR_WIDTH + WALL_THICKNESS,
    ensures
        door == gen_door_spec(c_x as int, c_y as int, room_w as int, room_h as int, side, m as int),
        door.wf(),
        door.facing == side,
        -(room_w as int / 2) <= door.cr.center.x - c_x <= room_w as int / 2,
        -(room_h as int / 2) <= door.cr.center.y - c_y <= room_h as int / 2,
        door_fits_spec(
            CenteredRect { center: Point { x: c_x, y: c_y }, width: room_w, height: room_h },
            door,
            side,
        ),
{
    proof {
        lemma_quarter_half(room_w as int);
        lemma_quarter_half(room_h as int);
        assert((room_w - 104) / 2 == room_w as int / 2 - 52) by (nonlinear_arith)
            requires
                room_w % 2 == 0,
        ;
    }
    let slack_half: i64 = (room_w - DOOR_WIDTH - WALL_THICKNESS) / 2;
    let off: i64 = door_offset(slack_half, m);
    let y: i64 = if side == Direction::North {
        c_y - room_h / 2
    } else {
        c_y + room_h / 2
    };
    Door {
        cr: CenteredRect {
            center: Point { x: c_x + off, y },
            width: DOOR_WIDTH,
            height: WALL_THICKNESS,
        },
        facing: side,
    }
}

/// Door placement on an east or west wall.
#[verifier::rlimit(100)]
#[verifier::spinoff_prover]
fn gen_door_ew(c_x: i64, c_y: i64, room_w: i64, room_h: i64, side: Direction, m: i64) -> (door:
    Door)
    requires
        side == Direction::East || side == Direction::West,
        -1000 <= m <= 1000,
        c_x % 2 == 0,
        c_y % 2 == 0,
        room_w % 4 == 0,
        room_h % 4 == 0,
        0 <= room_w <= 500_000,
        0 <= room_h <= 500_000,
        -89_000_000 <= c_x <= 89_000_000,
        -89_000_000 <= c_y <= 89_000_000,
        room_h >= DOOR_WIDTH + WALL_THICKNESS,
    ensures
        door == gen_door_spec(c_x as int, c_y as int, room_w as int, room_h as int, side, m as int),
        door.wf(),
        door.facing == side,
        -(room_w as int / 2) <= door.cr.center.x - c_x <= room_w as int / 2,
        -(room_h as int / 2) <= door.cr.center.y - c_y <= room_h as int / 2,
        door_fits_spec(
            CenteredRect { center: Point { x: c_x, y: c_y }, width: room_w, height: room_h },
            door,
            side,
        ),
{
    proof {
        lemma_quarter_half(room_w as int);
        lemma_quarter_half(room_h as int);
        assert((room_h - 104) / 2 == room_h as int / 2 - 52) by (nonlinear_arith)
            requires
                room_h % 2 == 0,
        ;
    }
    let slack_half: i64 = (room_h - DOOR_WIDTH - WALL_THICKNESS) / 2;
    let off: i64 = door_offset(slack_half, m);
    let x: i64 = if side == Direction::West {
        c_x - room_w / 2
    } else {
        c_x + room_w / 2
    };
    Door {
        cr: CenteredRect {
            center: Point { x, y: c_y + off },
            width: WALL_THICKNESS,
            height: DOOR_WIDTH,
        },
        facing: side,
    }
}

/// The collidable shape of a room: its walls relative to its center.
pub open spec fn room_shape_spec(room: Room) -> Seq<CenteredRect> {
    Seq::new(room.walls@.len(), |j: int| rel_rect_spec(room.walls@[j].0, room.cr.center))
}

/// A wall rectangle expressed relative to a room center.
pub open spec fn rel_rect_spec(wall: Wall, c: Point) -> CenteredRect {
    CenteredRect {
        center: Point { x: (wall.center.x - c.x) as i64, y: (wall.center.y - c.y) as i64 },
        width: wall.width,
        height: wall.height,
    }
}

proof fn lemma_mid_bounds(a: int, b: int, lo: int, hi: int)
    requires
        2 * lo <= a + b <= 2 * hi,
    ensures
        lo <= (a + b) / 2 <= hi,
{
    assert(lo <= (a + b) / 2 <= hi) by (nonlinear_arith)
        requires
            2 * lo <= a + b <= 2 * hi,
    ;
}

/// Every wall of a well-formed room stays within one wall thickness of the
/// room's own box, so the walls relative to the room center are small.
pub proof fn lemma_walls_in_box(room: Room)
    requires
        room.wf(),
    ensures
        forall|i: int|
            0 <= i < room.walls@.len() ==> {
                let w = (#[trigger] room.walls@[i]).0;
                &&& room.cr.center.x - room.cr.width as int / 2 - WALL_THICKNESS <= w.center.x
                    <= room.cr.center.x + room.cr.width as int / 2 + WALL_THICKNESS
                &&& room.cr.center.y - room.cr.height as int / 2 - WALL_THICKNESS <= w.center.y
                    <= room.cr.center.y + room.cr.height as int / 2 + WALL_THICKNESS
            },
{
    let r = room.cr;
    let door = room.door;
    let side = room.door.facing;
    let s = door_split_walls_spec(r, door, side);
    lemma_quarter_half(r.width as int);
    lemma_quarter_half(r.height as int);
    lemma_quarter_half(door.cr.width as int);
    lemma_quarter_half(door.cr.height as int);
    if side == Direction::North || side == Direction::South {
        let lo = r.left_edge_spec() - WALL_THICKNESS as int / 2;
        let hi = r.right_edge_spec() + WALL_THICKNESS as int / 2;
        lemma_mid_bounds(lo, door.cr.left_edge_spec(), lo, hi);
        lemma_mid_bounds(door.cr.right_edge_spec(), hi, lo, hi);
    } else {
        let lo = r.top_edge_spec() - WALL_THICKNESS as int / 2;
        let hi = r.bottom_edge_spec() + WALL_THICKNESS as int / 2;
        lemma_mid_bounds(lo, door.cr.top_edge_spec(), lo, hi);
        lemma_mid_bounds(door.cr.bottom_edge_spec(), hi, lo, hi);
    }
    assert forall|i: int| 0 <= i < room.walls@.len() implies {
        let w = (#[trigger] room.walls@[i]).0;
        &&& r.center.x - r.width as int / 2 - WALL_THICKNESS <= w.center.x <= r.center.x + r.width
            as int / 2 + WALL_THICKNESS
        &&& r.center.y - r.height as int / 2 - WALL_THICKNESS <= w.center.y <= r.center.y
            + r.height as int / 2 + WALL_THICKNESS
    } by {
        assert(room.walls@ == walls_with_door_spec(r, door, side));
    }
}

/// Law: on the door-bearing side of any well-formed room, the two wall
/// segments and the door span partition the side exactly: their extents sum
/// to the room's side length plus one wall thickness. Every other side is a
/// single full wall, so no side has a gap or an overlap.
pub proof fn lemma_door_partition(room: Room)
    requires
        room.wf(),
    ensures
        room.walls@.len() == 5,
        ({
            let s = door_split_walls_spec(room.cr, room.door, room.door.facing);
            &&& room.walls@.contains(s[0])
            &&& room.walls@.contains(s[1])
            &&& (room.door.facing == Direction::North || room.door.facing == Direction::South)
                ==> s[0].0.width + s[1].0.width + room.door.cr.width == room.cr.width
                + WALL_THICKNESS
            &&& (room.door.facing == Direction::East || room.door.facing == Direction::West)
                ==> s[0].0.height + s[1].0.height + room.door.cr.height == room.cr.height
                + WALL_THICKNESS
        }),
        forall|i: int|
            0 <= i < room.walls@.len() && (#[trigger] room.walls@[i]).1 != room.door.facing
                ==> room.walls@[i].0 == full_wall_spec(room.cr, room.walls@[i].1),
{
    let side = room.door.facing;
    let s = door_split_walls_spec(room.cr, room.door, side);
    lemma_quarter_half(room.cr.width as int);
    lemma_quarter_half(room.cr.height as int);
    lemma_quarter_half(room.door.cr.width as int);
    lemma_quarter_half(room.door.cr.height as int);
    if side == Direction::North {
        assert(room.walls@[0] == s[0] && room.walls@[1] == s[1]);
    } else if side == Direction::East {
        assert(room.walls@[1] == s[0] && room.walls@[2] == s[1]);
    } else if side == Direction::South {
        assert(room.walls@[2] == s[0] && room.walls@[3] == s[1]);
    } else {
        assert(room.walls@[3] == s[0] && room.walls@[4] == s[1]);
    }
}

} // verus!
