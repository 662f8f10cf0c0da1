//! Compound rooms: clusters of mutually touching rooms assembled on the
//! integer meter grid. A candidate room walks toward the cluster until
//! contact, and a door is punched at the midpoint of the overlapping wall
//! pair.

use crate::direction::Direction;
use crate::geom::{
    gen_plain_walls, lemma_filter_take_step, plain_walls_spec, rects_touch, rects_touch_spec,
    walk_grid, walk_grid_spec, CenteredRect, GridRect, Point, PolarVec, SUBUNITS,
};
use crate::level::{Wall, WALL_THICKNESS};
use crate::rng::rand_range;
use crate::rooms::{door_fits_spec, Door, Room, DOOR_WIDTH};
use vstd::prelude::*;

verus! {

/// A cluster of rooms that all touch each other.
pub type CompoundRoom = Vec<Room>;

/// A contact between two touching rectangles: a point of the overlap, the
/// axis-aligned unit normal pointing from the first shape toward the second,
/// and the penetration depth.
#[derive(PartialEq, Eq, Structural, Debug, Clone, Copy, Hash)]
pub struct Contact {
    pub world1: Point,
    pub normal: Point,
    pub depth: i64,
}

impl Contact {
    /// Normals are exactly axis-aligned unit vectors; grid placement makes
    /// every contact the collision model reports satisfy this.
    pub open spec fn normal_cardinal(self) -> bool {
        ||| (self.normal.x == 1 && self.normal.y == 0)
        ||| (self.normal.x == 0 && self.normal.y == 1)
        ||| (self.normal.x == -1 && self.normal.y == 0)
        ||| (self.normal.x == 0 && self.normal.y == -1)
    }
}

/// The contact reported for two touching rectangles: the overlap box's
/// center, the normal along the axis of least penetration (pointing from `a`
/// toward `b`, east or south on ties), and the penetration depth.
pub open spec fn contact_spec(a: CenteredRect, b: CenteredRect) -> Contact {
    let ox1 = if a.left_edge_spec() >= b.left_edge_spec() {
        a.left_edge_spec()
    } else {
        b.left_edge_spec()
    };
    let ox2 = if a.right_edge_spec() <= b.right_edge_spec() {
        a.right_edge_spec()
    } else {
        b.right_edge_spec()
    };
    let oy1 = if a.top_edge_spec() >= b.top_edge_spec() {
        a.top_edge_spec()
    } else {
        b.top_edge_spec()
    };
    let oy2 = if a.bottom_edge_spec() <= b.bottom_edge_spec() {
        a.bottom_edge_spec()
    } else {
        b.bottom_edge_spec()
    };
    let px = ox2 - ox1;
    let py = oy2 - oy1;
    Contact {
        world1: Point { x: ((ox1 + ox2) / 2) as i64, y: ((oy1 + oy2) / 2) as i64 },
        normal: if px <= py {
            if b.center.x >= a.center.x {
                Point { x: 1i64, y: 0i64 }
            } else {
                Point { x: -1i64, y: 0i64 }
            }
        } else {
            if b.center.y >= a.center.y {
                Point { x: 0i64, y: 1i64 }
            } else {
                Point { x: 0i64, y: -1i64 }
            }
        },
        depth: if px <= py {
            px as i64
        } else {
            py as i64
        },
    }
}

/// The contact between two rectangles, if they touch as closed boxes.
pub fn contact_rects(a: &CenteredRect, b: &CenteredRect) -> (r: Option<Contact>)
    requires
        a.wf(),
        b.wf(),
        crate::geom::rect_aligned(*a),
        crate::geom::rect_aligned(*b),
        crate::geom::rect_bounded(*a),
        crate::geom::rect_bounded(*b),
    ensures
        r is Some <==> rects_touch_spec(*a, *b),
        r matches Some(c) ==> c == contact_spec(*a, *b) && c.normal_cardinal() && c.depth >= 0,
{
    if !rects_touch(a, b) {
        return None;
    }
    proof {
        crate::rooms::lemma_quarter_half(a.width as int);
        crate::rooms::lemma_quarter_half(a.height as int);
        crate::rooms::lemma_quarter_half(b.width as int);
        crate::rooms::lemma_quarter_half(b.height as int);
    }
    let al: i64 = a.left_edge();
    let ar: i64 = a.right_edge();
    let at: i64 = a.top_edge();
    let ab: i64 = a.bottom_edge();
    let bl: i64 = b.left_edge();
    let br: i64 = b.right_edge();
    let bt: i64 = b.top_edge();
    let bb: i64 = b.bottom_edge();
    let ox1: i64 = if al >= bl {
        al
    } else {
        bl
    };
    let ox2: i64 = if ar <= br {
        ar
    } else {
        br
    };
    let oy1: i64 = if at >= bt {
        at
    } else {
        bt
    };
    let oy2: i64 = if ab <= bb {
        ab
    } else {
        bb
    };
    let px: i64 = ox2 - ox1;
    let py: i64 = oy2 - oy1;
    let world1: Point = Point::new(
        crate::geom::mid_coord(ox1, ox2),
        crate::geom::mid_coord(oy1, oy2),
    );
    let normal: Point = if px <= py {
        if b.center.x >= a.center.x {
            Point { x: 1, y: 0 }
        } else {
            Point { x: -1, y: 0 }
        }
    } else {
        if b.center.y >= a.center.y {
            Point { x: 0, y: 1 }
        } else {
            Point { x: 0, y: -1 }
        }
    };
    let depth: i64 = if px <= py {
        px
    } else {
        py
    };
    Some(Contact { world1, normal, depth })
}

/// The builder for one compound room: the grid rectangles placed so far and
/// the rooms already converted from them.
#[derive(Debug)]
pub struct CompoundRoomMaker {
    pub rects: Vec<GridRect>,
    pub rooms: Vec<Room>,
}

/// A candidate grid rectangle placed with its top-left corner at `p`.
pub open spec fn placed_rect_spec(w: int, h: int, p: Point) -> GridRect {
    GridRect { width: w as i64, height: h as i64, top_left: p }
}

/// Whether a candidate of size `w` by `h` placed at `p` touches some rect of
/// the cluster.
pub open spec fn touches_cluster_spec(rects: Seq<GridRect>, w: int, h: int, p: Point) -> bool {
    exists|i: int|
        0 <= i < rects.len() && rects_touch_spec(
            (#[trigger] rects[i]).to_rect_spec(),
            placed_rect_spec(w, h, p).to_rect_spec(),
        )
}

/// Where the snap walk stops: the first `n` walk positions all touch the
/// cluster, and position `n`, if it exists, does not.
pub open spec fn snap_stop_ok(
    rects: Seq<GridRect>,
    w: int,
    h: int,
    walk: Seq<Point>,
    n: int,
) -> bool {
    &&& 1 <= n <= walk.len()
    &&& forall|k: int| 0 <= k < n ==> touches_cluster_spec(rects, w, h, #[trigger] walk[k])
    &&& n < walk.len() ==> !touches_cluster_spec(rects, w, h, walk[n])
}

/// Each converted room outlines the placed rectangle of the same index.
#[verifier::opaque]
pub open spec fn rooms_match_rects(rooms: Seq<Room>, rects: Seq<GridRect>) -> bool {
    &&& rooms.len() <= rects.len()
    &&& forall|i: int|
        0 <= i < rooms.len() ==> (#[trigger] rooms[i]).cr == rects[i].to_rect_spec()
}

/// `c` is the contact some cluster member reports against a candidate of
/// size `w` by `h` placed at `p`.
#[verifier::opaque]
pub open spec fn contact_for_spec(
    rects: Seq<GridRect>,
    w: int,
    h: int,
    p: Point,
    c: Contact,
) -> bool {
    exists|k: int|
        0 <= k < rects.len() && rects_touch_spec(
            (#[trigger] rects[k]).to_rect_spec(),
            placed_rect_spec(w, h, p).to_rect_spec(),
        ) && c == contact_spec(rects[k].to_rect_spec(), placed_rect_spec(w, h, p).to_rect_spec())
}

/// A grid rectangle's subunit form is aligned and comfortably bounded.
pub proof fn lemma_grid_rect_aligned(gr: GridRect)
    requires
        gr.wf(),
    ensures
        gr.to_rect_spec().wf(),
        crate::geom::rect_aligned(gr.to_rect_spec()),
        crate::geom::rect_bounded(gr.to_rect_spec()),
{
    assert(gr.to_rect_spec().center.x % 2 == 0 && gr.to_rect_spec().center.y % 2 == 0
        && gr.to_rect_spec().width % 4 == 0 && gr.to_rect_spec().height % 4 == 0
        && 0 <= gr.to_rect_spec().width <= 1_000_000 && 0 <= gr.to_rect_spec().height
        <= 1_000_000 && -90_000_000 <= gr.to_rect_spec().center.x <= 90_000_000 && -90_000_000
        <= gr.to_rect_spec().center.y <= 90_000_000) by (nonlinear_arith)
        requires
            gr.wf(),
    ;
}

/// Every edge of every full wall of a grid-aligned rectangle lies on the
/// eight-subunit lattice, and its center coordinates are even. This is what
/// keeps the overlap midpoint, and hence the punched door, exactly on the
/// lattice the rest of the geometry needs.
#[verifier::rlimit(100)]
#[verifier::spinoff_prover]
pub proof fn lemma_grid_wall_aligned(gr: GridRect, d: Direction)
    requires
        gr.wf(),
        -300_000 <= gr.top_left.x <= 300_000,
        -300_000 <= gr.top_left.y <= 300_000,
        d.is_cardinal(),
    ensures
        ({
            let w = crate::geom::full_wall_spec(gr.to_rect_spec(), d);
            &&& w.wf()
            &&& w.center.x % 2 == 0
            &&& w.center.y % 2 == 0
            &&& w.left_edge_spec() % 8 == 0
            &&& w.right_edge_spec() % 8 == 0
            &&& w.top_edge_spec() % 8 == 0
            &&& w.bottom_edge_spec() % 8 == 0
            &&& -24_800_000 <= w.left_edge_spec() <= 24_800_000
            &&& -24_800_000 <= w.right_edge_spec() <= 24_800_000
            &&& -24_800_000 <= w.top_edge_spec() <= 24_800_000
            &&& -24_800_000 <= w.bottom_edge_spec() <= 24_800_000
        }),
{
    lemma_grid_rect_aligned(gr);
    let r = gr.to_rect_spec();
    assert(r.center.x == 80 * gr.top_left.x + 40 * gr.width && r.center.y == 80 * gr.top_left.y
        + 40 * gr.height && r.width == 80 * gr.width && r.height == 80 * gr.height);
    assert((80 * gr.width + 16) / 2 == 40 * gr.width + 8 && (80 * gr.height + 16) / 2 == 40
        * gr.height + 8 && (80 * gr.width) / 2 == 40 * gr.width && (80 * gr.height) / 2 == 40
        * gr.height) by (nonlinear_arith);
    let w = crate::geom::full_wall_spec(r, d);
    assert((80 * gr.top_left.x + 40 * gr.width) % 8 == 0 && (80 * gr.top_left.y + 40 * gr.height)
        % 8 == 0 && (40 * gr.width + 8) % 8 == 0 && (40 * gr.height + 8) % 8 == 0 && (40
        * gr.width) % 8 == 0 && (40 * gr.height) % 8 == 0) by (nonlinear_arith);
    assert(WALL_THICKNESS as int / 2 == 8);
    assert((WALL_THICKNESS + 80 * gr.width) % 2 == 0 && (WALL_THICKNESS + 80 * gr.height) % 2
        == 0) by (nonlinear_arith);
    assert(((80 * gr.width + 16)) / 2 == (r.width + WALL_THICKNESS) / 2);
}

/// The direction an axis-aligned unit normal points in.
pub open spec fn dir_of_normal_spec(n: Point) -> Direction {
    if n.x == 1 {
        Direction::East
    } else if n.y == 1 {
        Direction::South
    } else if n.x == -1 {
        Direction::West
    } else {
        Direction::North
    }
}

/// All full walls of all placed rectangles, flattened in order: rectangle by
/// rectangle, each contributing its four walls in compass order.
pub open spec fn all_walls_spec(rects: Seq<GridRect>) -> Seq<(Wall, Direction)> {
    Seq::new(4 * rects.len(), |i: int| plain_walls_spec(rects[i / 4].to_rect_spec())[i % 4])
}

/// A wall qualifies for door punching when it is parallel to the contact
/// normal, coincides with the contact point in its fixed coordinate, and its
/// span strictly brackets the contact point.
pub open spec fn wall_matches_spec(w: Wall, d: Direction, c: Contact) -> bool {
    let cd = dir_of_normal_spec(c.normal);
    &&& (d == cd || d.opposite_spec() == cd)
    &&& if d == Direction::East || d == Direction::West {
        w.center.x == c.world1.x && w.bottom_edge_spec() > c.world1.y && c.world1.y
            > w.top_edge_spec()
    } else {
        w.center.y == c.world1.y && w.left_edge_spec() < c.world1.x && c.world1.x
            < w.right_edge_spec()
    }
}

/// The lower end of the overlap of two matched walls, along the wall axis.
pub open spec fn overlap_lo_spec(w1: Wall, w2: Wall, d: Direction) -> int {
    if d == Direction::East || d == Direction::West {
        if w1.top_edge_spec() >= w2.top_edge_spec() {
            w1.top_edge_spec()
        } else {
            w2.top_edge_spec()
        }
    } else {
        if w1.left_edge_spec() >= w2.left_edge_spec() {
            w1.left_edge_spec()
        } else {
            w2.left_edge_spec()
        }
    }
}

/// The upper end of the overlap of two matched walls, along the wall axis.
pub open spec fn overlap_hi_spec(w1: Wall, w2: Wall, d: Direction) -> int {
    if d == Direction::East || d == Direction::West {
        if w1.bottom_edge_spec() <= w2.bottom_edge_spec() {
            w1.bottom_edge_spec()
        } else {
            w2.bottom_edge_spec()
        }
    } else {
        if w1.right_edge_spec() <= w2.right_edge_spec() {
            w1.right_edge_spec()
        } else {
            w2.right_edge_spec()
        }
    }
}

/// The midpoint of the overlap, placed on the walls' shared line.
pub open spec fn overlap_mid_spec(w1: Wall, w2: Wall, d: Direction) -> Point {
    let mid = (overlap_lo_spec(w1, w2, d) + overlap_hi_spec(w1, w2, d)) / 2;
    if d == Direction::East || d == Direction::West {
        Point { x: w1.center.x, y: mid as i64 }
    } else {
        Point { x: mid as i64, y: w1.center.y }
    }
}

/// A wall the overlap scan may keep: well-formed, with even center
/// coordinates, all edges on the eight-subunit lattice, and comfortably
/// bounded.
pub open spec fn wall_scan_ok(w: Wall) -> bool {
    &&& w.wf()
    &&& w.center.x % 2 == 0
    &&& w.center.y % 2 == 0
    &&& w.left_edge_spec() % 8 == 0
    &&& w.right_edge_spec() % 8 == 0
    &&& w.top_edge_spec() % 8 == 0
    &&& w.bottom_edge_spec() % 8 == 0
    &&& -24_800_000 <= w.left_edge_spec() <= 24_800_000
    &&& -24_800_000 <= w.right_edge_spec() <= 24_800_000
    &&& -24_800_000 <= w.top_edge_spec() <= 24_800_000
    &&& -24_800_000 <= w.bottom_edge_spec() <= 24_800_000
}

/// The two walls matched by a contact, if the scan finds exactly two.
pub open spec fn matched_walls_spec(rects: Seq<GridRect>, c: Contact) -> Seq<(Wall, Direction)> {
    all_walls_spec(rects).filter(|wd: (Wall, Direction)| wall_matches_spec(wd.0, wd.1, c))
}

/// The contact a whole cluster reports against a candidate rectangle: a
/// deepest contact among the touching members (the first such member on a
/// tie).
pub fn compound_contact(rects: &Vec<GridRect>, cand: &CenteredRect) -> (r: Option<Contact>)
    requires
        forall|i: int|
            0 <= i < rects@.len() ==> (#[trigger] rects@[i]).wf(),
        cand.wf(),
        crate::geom::rect_aligned(*cand),
        crate::geom::rect_bounded(*cand),
    ensures
        r is Some <==> exists|i: int|
            0 <= i < rects@.len() && rects_touch_spec((#[trigger] rects@[i]).to_rect_spec(), *cand),
        r matches Some(c) ==> (exists|i: int|
            0 <= i < rects@.len() && rects_touch_spec((#[trigger] rects@[i]).to_rect_spec(), *cand)
                && c == contact_spec(rects@[i].to_rect_spec(), *cand)) && c.normal_cardinal()
            && c.depth >= 0,
{
    let mut best: Option<Contact> = None;
    let mut i: usize = 0;
    while i < rects.len()
        invariant
            forall|k: int| 0 <= k < rects@.len() ==> (#[trigger] rects@[k]).wf(),
            cand.wf(),
            crate::geom::rect_aligned(*cand),
            crate::geom::rect_bounded(*cand),
            0 <= i <= rects@.len(),
            best is Some <==> exists|k: int|
                0 <= k < i && rects_touch_spec((#[trigger] rects@[k]).to_rect_spec(), *cand),
            best matches Some(c) ==> (exists|k: int|
                0 <= k < i && rects_touch_spec((#[trigger] rects@[k]).to_rect_spec(), *cand) && c
                    == contact_spec(rects@[k].to_rect_spec(), *cand)) && c.normal_cardinal()
                && c.depth >= 0,
        decreases rects@.len() - i,
    {
        let gr: GridRect = *rects.get(i).unwrap();
        proof {
            lemma_grid_rect_aligned(gr);
        }
        let world: CenteredRect = gr.to_rect();
        match contact_rects(&world, cand) {
            Some(c) => {
                let replace: bool = match best {
                    Some(b) => c.depth > b.depth,
                    None => true,
                };
                if replace {
                    best = Some(c);
                }
            },
            None => {},
        }
        i = i + 1;
    }
    best
}

impl CompoundRoomMaker {
    /// The builder's rectangles and rooms stay near the origin, on the meter
    /// grid; every converted room is well-formed, compound, and outlines the
    /// rectangle it was converted from; and every rectangle after the first
    /// touches an earlier one, so the cluster is connected.
    pub open spec fn wf(self) -> bool {
        &&& forall|i: int|
            0 <= i < self.rects@.len() ==> (#[trigger] self.rects@[i]).wf()
                && -300_000 <= self.rects@[i].top_left.x <= 300_000 && -300_000
                <= self.rects@[i].top_left.y <= 300_000
        &&& forall|i: int|
            0 <= i < self.rooms@.len() ==> (#[trigger] self.rooms@[i]).wf()
                && self.rooms@[i].is_compound && -30_000_000 <= self.rooms@[i].cr.center.x
                <= 30_000_000 && -30_000_000 <= self.rooms@[i].cr.center.y <= 30_000_000
                && -30_000_000 <= self.rooms@[i].door.cr.center.x <= 30_000_000 && -30_000_000
                <= self.rooms@[i].door.cr.center.y <= 30_000_000
        &&& rooms_match_rects(self.rooms@, self.rects@)
    }

    /// Starts a cluster from one grid rectangle; the starter room gets a
    /// placeholder door of one square meter at its own center.
    pub fn new(starter_rect: GridRect) -> (r: CompoundRoomMaker)
        requires
            starter_rect.wf(),
            -300_000 <= starter_rect.top_left.x <= 300_000,
            -300_000 <= starter_rect.top_left.y <= 300_000,
        ensures
            r.wf(),
            r.rects@.len() == 1,
            r.rects@[0] == starter_rect,
            r.rooms@.len() == 1,
            r.rooms@[0].cr == starter_rect.to_rect_spec(),
            r.rooms@[0].door == (Door {
                cr: CenteredRect {
                    center: starter_rect.to_rect_spec().center,
                    width: SUBUNITS,
                    height: SUBUNITS,
                },
                facing: Direction::North,
            }),
            r.rooms@[0].is_compound,
    {
        let starter_center: Point = starter_rect.to_rect().center;
        let door: Door = Door::new(
            CenteredRect::new(starter_center, SUBUNITS, SUBUNITS),
            Direction::North,
        );
        proof {
            assert(starter_rect.to_rect_spec().center.x % 40 == 0 && starter_rect.to_rect_spec().center.y
                % 40 == 0 && starter_rect.to_rect_spec().width % 80 == 0
                && starter_rect.to_rect_spec().height % 80 == 0) by (nonlinear_arith)
                requires
                    starter_rect.wf(),
            ;
        }
        proof {
            crate::rooms::lemma_quarter_half(starter_rect.to_rect_spec().width as int);
            crate::rooms::lemma_quarter_half(starter_rect.to_rect_spec().height as int);
            assert(door.wf());
            assert(door_fits_spec(starter_rect.to_rect_spec(), door, door.facing));
        }
        let room: Room = match CompoundRoomMaker::grid_room_to_room(&starter_rect, door) {
            Ok(room) => room,
            Err(()) => vstd::pervasive::unreached(),
        };
        let mut rects: Vec<GridRect> = Vec::new();
        rects.push(starter_rect);
        let mut rooms: Vec<Room> = Vec::new();
        rooms.push(room);
        let r = CompoundRoomMaker { rects, rooms };
        proof {
            assert(rooms_match_rects(r.rooms@, r.rects@)) by {
                reveal(rooms_match_rects);
            }
        }
        r
    }

    /// Converts a placed grid rectangle into a compound-member room carrying
    /// the given door; fails exactly when the door does not fit its side.
    pub fn grid_room_to_room(gr: &GridRect, door: Door) -> (r: Result<Room, ()>)
        requires
            gr.wf(),
            -300_000 <= gr.top_left.x <= 300_000,
            -300_000 <= gr.top_left.y <= 300_000,
            door.wf(),
        ensures
            r is Ok <==> door_fits_spec(gr.to_rect_spec(), door, door.facing),
            r matches Ok(room) ==> room.wf() && room.cr == gr.to_rect_spec() && room.door == door
                && room.is_compound,
    {
        let rect: CenteredRect = gr.to_rect();
        proof {
            assert(rect.center.x % 2 == 0 && rect.center.y % 2 == 0 && rect.width % 4 == 0
                && rect.height % 4 == 0) by (nonlinear_arith)
                requires
                    gr.wf(),
                    rect == gr.to_rect_spec(),
            ;
        }
        Room::new(rect.center, rect.width, rect.height, door, true)
    }

    /// Walks a candidate room from the cluster's origin outward along the
    /// exit offset, and keeps the last position that still reports contact
    /// with the cluster; that position is recorded as a placed rectangle and
    /// its contact returned. Fails only when even the starting position does
    /// not touch the cluster.
    #[verifier::rlimit(100)]
    #[verifier::spinoff_prover]
    pub fn snap_to_existing_rooms(&mut self, new_room: &GridRect, exit: Point) -> (r: Result<
        Contact,
        (),
    >)
        requires
            old(self).wf(),
            new_room.wf(),
            -10_000 <= exit.x <= 10_000,
            -10_000 <= exit.y <= 10_000,
        ensures
            final(self).wf(),
            final(self).rooms == old(self).rooms,
            r is Ok <==> touches_cluster_spec(
                old(self).rects@,
                new_room.width as int,
                new_room.height as int,
                Point { x: 0, y: 0 },
            ),
            r is Err ==> final(self).rects == old(self).rects,
            r matches Ok(c) ==> c.normal_cardinal() && ({
                let walk = walk_grid_spec(Point { x: 0, y: 0 }, exit);
                exists|n: int|
                    #[trigger] snap_stop_ok(
                        old(self).rects@,
                        new_room.width as int,
                        new_room.height as int,
                        walk,
                        n,
                    ) && final(self).rects@ == old(self).rects@.push(
                        GridRect {
                            width: new_room.width,
                            height: new_room.height,
                            top_left: walk[n - 1],
                        },
                    ) && contact_for_spec(
                        old(self).rects@,
                        new_room.width as int,
                        new_room.height as int,
                        walk[n - 1],
                        c,
                    )
            }),
    {
        let walk_list: Vec<Point> = walk_grid(Point::new(0, 0), exit);
        let orig_w: i64 = new_room.width;
        let orig_h: i64 = new_room.height;
        let mut last_contact: Option<Contact> = None;
        let mut last_pt: Point = Point::new(0, 0);
        let mut blocked: bool = false;
        let mut i: usize = 0;
        let ghost walk: Seq<Point> = walk_list@;
        while i < walk_list.len()
            invariant_except_break
                blocked == false,
            invariant
                old(self).wf(),
                *self == *old(self),
                new_room.wf(),
                orig_w == new_room.width,
                orig_h == new_room.height,
                walk_list@ == walk,
                walk.len() >= 1,
                0 <= i <= walk.len(),
                forall|j: int|
                    0 <= j < walk.len() ==> -200_000 <= (#[trigger] walk[j]).x <= 200_000
                        && -200_000 <= walk[j].y <= 200_000,
                forall|k: int|
                    0 <= k < i ==> touches_cluster_spec(
                        self.rects@,
                        orig_w as int,
                        orig_h as int,
                        #[trigger] walk[k],
                    ),
                last_contact is Some <==> i >= 1,
                last_contact matches Some(c) ==> c.normal_cardinal() && last_pt == walk[i - 1]
                    && contact_for_spec(
                    self.rects@,
                    orig_w as int,
                    orig_h as int,
                    last_pt,
                    c,
                ),
            ensures
                *self == *old(self),
                0 <= i <= walk.len(),
                forall|k: int|
                    0 <= k < i ==> touches_cluster_spec(
                        self.rects@,
                        orig_w as int,
                        orig_h as int,
                        #[trigger] walk[k],
                    ),
                last_contact is Some <==> i >= 1,
                last_contact matches Some(c) ==> c.normal_cardinal() && last_pt == walk[i - 1]
                    && contact_for_spec(
                    self.rects@,
                    orig_w as int,
                    orig_h as int,
                    last_pt,
                    c,
                ),
                blocked ==> i < walk.len() && !touches_cluster_spec(
                    self.rects@,
                    orig_w as int,
                    orig_h as int,
                    walk[i as int],
                ),
                !blocked ==> i == walk.len(),
            decreases walk.len() - i,
        {
            let wp: Point = *walk_list.get(i).unwrap();
            let cand_rect: GridRect = GridRect::new(orig_w, orig_h, wp);
            proof {
                lemma_grid_rect_aligned(cand_rect);
                assert(cand_rect == placed_rect_spec(orig_w as int, orig_h as int, wp));
            }
            let cand: CenteredRect = cand_rect.to_rect();
            match compound_contact(&self.rects, &cand) {
                Some(c) => {
                    proof {
                        reveal(contact_for_spec);
                        assert(contact_for_spec(
                            self.rects@,
                            orig_w as int,
                            orig_h as int,
                            wp,
                            c,
                        ));
                    }
                    last_contact = Some(c);
                    last_pt = wp;
                    i = i + 1;
                },
                None => {
                    blocked = true;
                    break;
                },
            }
        }
        match last_contact {
            Some(c) => {
                let placed: GridRect = GridRect::new(orig_w, orig_h, last_pt);
                self.rects.push(placed);
                proof {
                    let n = i as int;
                    assert(snap_stop_ok(
                        old(self).rects@,
                        orig_w as int,
                        orig_h as int,
                        walk,
                        n,
                    ));
                    assert(final(self).rects@ == old(self).rects@.push(placed));
                    assert(placed == placed_rect_spec(orig_w as int, orig_h as int, last_pt));
                    assert(rooms_match_rects(self.rooms@, self.rects@)) by {
                        reveal(rooms_match_rects);
                    }
                }
                Ok(c)
            },
            None => {
                proof {
                    assert(walk[0] == (Point { x: 0, y: 0 }));
                }
                Err(())
            },
        }
    }

    /// Searches every wall of every placed rectangle for the two walls that
    /// the contact point lies on, and returns the midpoint of their overlap.
    /// Fails when the scan does not find exactly two such walls, or when the
    /// overlap is too narrow to hold a door plus a margin of one wall
    /// thickness on each side.
    pub fn find_wall_overlap_midpoint(&self, contact: &Contact) -> (r: Result<Point, ()>)
        requires
            self.wf(),
            contact.normal_cardinal(),
        ensures
            ({
                let m = matched_walls_spec(self.rects@, *contact);
                &&& r is Ok <==> (m.len() == 2 && overlap_hi_spec(m[0].0, m[1].0, m[0].1)
                    - overlap_lo_spec(m[0].0, m[1].0, m[0].1) >= DOOR_WIDTH + 2 * WALL_THICKNESS)
                &&& r matches Ok(p) ==> p == overlap_mid_spec(m[0].0, m[1].0, m[0].1) && p.x % 2
                    == 0 && p.y % 2 == 0 && -25_000_000 <= p.x <= 25_000_000 && -25_000_000 <= p.y
                    <= 25_000_000
            }),
    {
        let ghost flat: Seq<(Wall, Direction)> = all_walls_spec(self.rects@);
        let ghost pred = |wd: (Wall, Direction)| wall_matches_spec(wd.0, wd.1, *contact);
        let contact_dir: Direction = Direction::from_normal((contact.normal.x, contact.normal.y));
        let mut target: Vec<(Wall, Direction)> = Vec::new();
        let mut i: usize = 0;
        proof {
            assert(flat.take(0).filter(pred) =~= Seq::<(Wall, Direction)>::empty().filter(pred));
            reveal(Seq::filter);
        }
        while i < self.rects.len()
            invariant
                self.wf(),
                contact.normal_cardinal(),
                contact_dir == dir_of_normal_spec(contact.normal),
                flat == all_walls_spec(self.rects@),
                pred == (|wd: (Wall, Direction)| wall_matches_spec(wd.0, wd.1, *contact)),
                0 <= i <= self.rects@.len(),
                target@ == flat.take(4 * i).filter(pred),
                forall|j: int|
                    0 <= j < target@.len() ==> wall_scan_ok((#[trigger] target@[j]).0),
            decreases self.rects@.len() - i,
        {
            let gr: GridRect = *self.rects.get(i).unwrap();
            proof {
                lemma_grid_rect_aligned(gr);
            }
            let world: CenteredRect = gr.to_rect();
            let walls: Vec<(Wall, Direction)> = gen_plain_walls(&world);
            let mut k: usize = 0;
            while k < 4
                invariant
                    self.wf(),
                    contact.normal_cardinal(),
                    contact_dir == dir_of_normal_spec(contact.normal),
                    flat == all_walls_spec(self.rects@),
                    pred == (|wd: (Wall, Direction)| wall_matches_spec(wd.0, wd.1, *contact)),
                    0 <= i < self.rects@.len(),
                    0 <= k <= 4,
                    gr == self.rects@[i as int],
                    gr.wf(),
                    world == gr.to_rect_spec(),
                    walls@ == plain_walls_spec(world),
                    forall|j: int| 0 <= j < walls@.len() ==> (#[trigger] walls@[j]).0.wf(),
                    target@ == flat.take(4 * i + k).filter(pred),
                    forall|j: int|
                        0 <= j < target@.len() ==> wall_scan_ok((#[trigger] target@[j]).0),
                decreases 4 - k,
            {
                let wd: (Wall, Direction) = *walls.get(k).unwrap();
                let w: Wall = wd.0;
                let d: Direction = wd.1;
                proof {
                    assert(4 * i + k < 4 * self.rects@.len());
                    assert((4 * i + k) / 4 == i && (4 * i + k) % 4 == k) by (nonlinear_arith)
                        requires
                            0 <= i,
                            0 <= k < 4,
                    ;
                    assert(flat[4 * i + k] == wd);
                    lemma_filter_take_step(flat, pred, 4 * i + k);
                    lemma_grid_wall_aligned(gr, Direction::North);
                    lemma_grid_wall_aligned(gr, Direction::East);
                    lemma_grid_wall_aligned(gr, Direction::South);
                    lemma_grid_wall_aligned(gr, Direction::West);
                    if k == 0 {
                        assert(wd == (crate::geom::full_wall_spec(world, Direction::North),
                        Direction::North));
                    } else if k == 1 {
                        assert(wd == (crate::geom::full_wall_spec(world, Direction::East),
                        Direction::East));
                    } else if k == 2 {
                        assert(wd == (crate::geom::full_wall_spec(world, Direction::South),
                        Direction::South));
                    } else {
                        assert(wd == (crate::geom::full_wall_spec(world, Direction::West),
                        Direction::West));
                    }
                }
                let matches_wall: bool = if d == contact_dir || {
                    let o = d.opposite();
                    o == contact_dir
                } {
                    if d == Direction::East || d == Direction::West {
                        w.center.x == contact.world1.x && w.bottom_edge() > contact.world1.y
                            && contact.world1.y > w.top_edge()
                    } else {
                        w.center.y == contact.world1.y && w.left_edge() < contact.world1.x
                            && contact.world1.x < w.right_edge()
                    }
                } else {
                    false
                };
                proof {
                    assert(wall_scan_ok(wd.0));
                }
                if matches_wall {
                    target.push(wd);
                }
                k = k + 1;
            }
            proof {
                assert(4 * (i as int + 1) == 4 * i + 4);
            }
            i = i + 1;
        }
        proof {
            assert(flat.take(4 * self.rects@.len() as int) =~= flat);
        }
        if target.len() != 2 {
            return Err(());
        }
        let w1d: (Wall, Direction) = *target.get(0).unwrap();
        let w2d: (Wall, Direction) = *target.get(1).unwrap();
        let w1: Wall = w1d.0;
        let w2: Wall = w2d.0;
        let d: Direction = w1d.1;
        let (a1, b1, a2, b2): (i64, i64, i64, i64) = if d == Direction::East || d
            == Direction::West {
            (w1.top_edge(), w1.bottom_edge(), w2.top_edge(), w2.bottom_edge())
        } else {
            (w1.left_edge(), w1.right_edge(), w2.left_edge(), w2.right_edge())
        };
        let lo: i64 = if a1 >= a2 {
            a1
        } else {
            a2
        };
        let hi: i64 = if b1 <= b2 {
            b1
        } else {
            b2
        };
        if hi - lo < DOOR_WIDTH + 2 * WALL_THICKNESS {
            return Err(());
        }
        proof {
            assert(((lo + hi) / 2) % 2 == 0 && (lo + hi) % 2 == 0) by (nonlinear_arith)
                requires
                    lo % 8 == 0,
                    hi % 8 == 0,
            ;
        }
        let mid: i64 = crate::geom::mid_coord(lo, hi);
        if d == Direction::East || d == Direction::West {
            Ok(Point::new(w1.center.x, mid))
        } else {
            Ok(Point::new(mid, w1.center.y))
        }
    }

}

} // verus!
