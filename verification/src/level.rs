//! The level generator: drives the cave automaton to completion, then places
//! rooms against the collision world until the target count is reached, in
//! discrete ticks. A level that has completed room placement never has two
//! registered shapes in contact.

use crate::ca_simulator::{CASim, BP_PER_UNIT};
use crate::collision::{
    any_contacts_spec, has_no_collisions, new_collw, CollW, CollidableDat, CollidableType,
};
use crate::direction::Direction;
use crate::geom::{lemma_filter_all, lemma_filter_none, CenteredRect, Point};
use crate::rng::rand_range;
use crate::rooms::{floormat_spec, room_shape_spec, Room};
use vstd::prelude::*;
use vstd::seq_lib::*;

verus! {

/// A wall is just a rectangle; the `Direction` it is paired with tells which
/// side of its room it belongs to.
pub type Wall = CenteredRect;

/// Thickness of every generated wall, in subunits (0.2 m).
pub const WALL_THICKNESS: i64 = 16;

/// How many placement attempts one room-placing tick spends before the stage
/// reports a generation failure, so a pathological cave cannot loop forever.
pub const ROOM_ATTEMPT_CAP: u64 = 64;

/// How many rooms (or whole compound clusters) the generator places.
pub const ROOM_TARGET: usize = 1;

/// The share of placement attempts that try a compound room, in percent.
pub const COMPOUND_SHARE_PCT: i64 = 100;

/// The smallest cave extent, per axis, that room placement will work with:
/// a door plus one wall thickness of margin on each side.
pub const MIN_PLACEMENT_SPREAD: i64 = 120;

/// The stages of level generation, strictly in this order.
#[derive(PartialEq, Eq, Structural, Debug, Clone, Copy, Hash)]
pub enum LevelGenStage {
    CaveSim,
    RoomSim,
    PlaceObstacles,
    Done,
}

impl LevelGenStage {
    /// The position of a stage in the fixed order.
    pub open spec fn index_spec(self) -> int {
        match self {
            LevelGenStage::CaveSim => 0,
            LevelGenStage::RoomSim => 1,
            LevelGenStage::PlaceObstacles => 2,
            LevelGenStage::Done => 3,
        }
    }
}

/// A level: one enclosed cave shape, with rooms layered on top of it.
#[derive(Debug)]
pub struct Level {
    pub cave_sim: CASim,
    pub level_gen_finished: bool,
    /// Set when room placement exhausted its attempt budget; the level is
    /// then finished but incomplete, instead of looping forever.
    pub gen_failed: bool,
    pub rooms: Vec<Room>,
    pub gen_stage: LevelGenStage,
    pub width: i64,
    pub height: i64,
    /// Scratch collision world used during generation to keep candidates
    /// from overlapping what is already placed.
    pub tmp_collw: CollW,
    pub tmp_ent_ct: usize,
}

impl Level {
    pub open spec fn wf(self) -> bool {
        &&& self.cave_sim.wf()
        &&& self.cave_sim.done_closed()
        &&& 800 <= self.width <= 400_000
        &&& 450 <= self.height <= 400_000
        &&& self.tmp_collw.wf()
        &&& self.rooms@.len() <= ROOM_TARGET + 4
        &&& self.tmp_collw.next_handle <= 2000 * (self.rooms@.len() + 1) + (if self.gen_failed {
            2000int
        } else {
            0int
        })
        &&& !any_contacts_spec(self.tmp_collw.objs@)
        &&& self.level_gen_finished == (self.gen_stage is Done)
        &&& (self.gen_stage.index_spec() >= 1 ==> self.cave_sim.gen_stage > 3)
        &&& forall|i: int|
            0 <= i < self.rooms@.len() ==> (#[trigger] self.rooms@[i]).wf() && -44_000_000
                <= self.rooms@[i].cr.center.x <= 44_000_000 && -44_000_000
                <= self.rooms@[i].cr.center.y <= 44_000_000 && -44_000_000
                <= self.rooms@[i].door.cr.center.x <= 44_000_000 && -44_000_000
                <= self.rooms@[i].door.cr.center.y <= 44_000_000
    }

    /// A fresh level: an 80 by 45 meter space over a 266 by 150 automaton
    /// grid, with nothing generated yet.
    pub fn new() -> (r: Level)
        ensures
            r.wf(),
            r.gen_stage is CaveSim,
            r.rooms@.len() == 0,
            !r.level_gen_finished,
            !r.gen_failed,
            r.width == 6400,
            r.height == 3600,
            r.cave_sim.width == 266,
            r.cave_sim.height == 150,
            r.cave_sim.gen_stage == 0,
            r.cave_sim.ca_boundary@.len() == 0,
            r.tmp_collw.objs@.len() == 0,
            r.tmp_collw.next_handle == 0,
            r.tmp_ent_ct == 0,
    {
        let r = Level {
            cave_sim: CASim::new(266, 150),
            level_gen_finished: false,
            gen_failed: false,
            rooms: Vec::new(),
            gen_stage: LevelGenStage::CaveSim,
            width: 6400,
            height: 3600,
            tmp_collw: new_collw(),
            tmp_ent_ct: 0,
        };
        r
    }

    /// Advances generation by one unit of work: one automaton tick, one room
    /// placement, or one (stubbed) obstacle pass. The stage only ever moves
    /// forward, and ticking a finished level changes nothing.
    pub fn tick_level_gen(&mut self)
        requires
            old(self).wf(),
        ensures
            final(self).wf(),
            old(self).gen_stage.index_spec() <= final(self).gen_stage.index_spec()
                <= old(self).gen_stage.index_spec() + 1,
            final(self).level_gen_finished == (final(self).gen_stage is Done),
            final(self).rooms@.take(old(self).rooms@.len() as int) == old(self).rooms@,
            old(self).gen_stage is CaveSim ==> ({
                &&& final(self).rooms == old(self).rooms
                &&& final(self).gen_failed == old(self).gen_failed
                &&& final(self).tmp_collw.objs@ == old(self).tmp_collw.objs@
                &&& (final(self).gen_stage is RoomSim) <==> final(self).cave_sim.gen_stage > 3
            }),
            old(self).gen_stage is RoomSim ==> ({
                &&& final(self).cave_sim == old(self).cave_sim
                &&& (final(self).gen_stage is PlaceObstacles) ==> final(self).rooms@.len()
                    >= ROOM_TARGET || final(self).gen_failed
                &&& (final(self).gen_stage is RoomSim) ==> final(self).rooms@.len() > old(
                    self,
                ).rooms@.len()
            }),
            old(self).gen_stage is PlaceObstacles ==> ({
                &&& final(self).gen_stage is Done
                &&& final(self).rooms == old(self).rooms
                &&& final(self).cave_sim == old(self).cave_sim
                &&& final(self).gen_failed == old(self).gen_failed
            }),
            old(self).gen_stage is Done ==> *final(self) == *old(self),
    {
        let stage_complete: bool = match self.gen_stage {
            LevelGenStage::CaveSim => self.tick_cavesim(),
            LevelGenStage::RoomSim => self.tick_roomsim(),
            LevelGenStage::PlaceObstacles => self.place_obstacles(),
            LevelGenStage::Done => false,
        };
        if stage_complete {
            self.gen_stage = match self.gen_stage {
                LevelGenStage::CaveSim => LevelGenStage::RoomSim,
                LevelGenStage::RoomSim => LevelGenStage::PlaceObstacles,
                LevelGenStage::PlaceObstacles => LevelGenStage::Done,
                LevelGenStage::Done => LevelGenStage::Done,
            };
        }
        if self.gen_stage == LevelGenStage::Done {
            self.level_gen_finished = true;
        }
    }

    /// One cave-automaton tick; complete when the automaton reports so.
    fn tick_cavesim(&mut self) -> (r: bool)
        requires
            old(self).wf(),
            old(self).gen_stage is CaveSim,
        ensures
            final(self).wf(),
            *final(self) == (Level { cave_sim: final(self).cave_sim, ..*old(self) }),
            final(self).cave_sim.width == old(self).cave_sim.width,
            final(self).cave_sim.height == old(self).cave_sim.height,
            r == (final(self).cave_sim.gen_stage > 3),
    {
        self.cave_sim.tick()
    }

    /// The decorative obstacle stage: not required for dungeon validity and
    /// left as an immediate completion.
    fn place_obstacles(&mut self) -> (r: bool)
        requires
            old(self).wf(),
        ensures
            final(self).wf(),
            *final(self) == *old(self),
            r,
    {
        true
    }

    /// Converts a point in level space to unit space, in basis points.
    pub fn lspace_to_uspace(&self, p: Point) -> (r: Point)
        requires
            self.wf(),
            -1_000_000_000 <= p.x <= 1_000_000_000,
            -1_000_000_000 <= p.y <= 1_000_000_000,
        ensures
            r.x == p.x * BP_PER_UNIT / self.width as int,
            r.y == p.y * BP_PER_UNIT / self.height as int,
    {
        proof {
            assert(p.x * BP_PER_UNIT == BP_PER_UNIT * p.x && p.y * BP_PER_UNIT == BP_PER_UNIT
                * p.y) by (nonlinear_arith);
            assert(-10_000_000_000_000 <= BP_PER_UNIT * p.x <= 10_000_000_000_000
                && -10_000_000_000_000 <= BP_PER_UNIT * p.y <= 10_000_000_000_000)
                by (nonlinear_arith)
                requires
                    -1_000_000_000 <= p.x <= 1_000_000_000,
                    -1_000_000_000 <= p.y <= 1_000_000_000,
            ;
            assert(forall|a: int, b: int| b > 0 && -10_000_000_000_000 <= a
                <= 10_000_000_000_000 ==> -10_000_000_000_000 <= #[trigger] (a / b)
                <= 10_000_000_000_000) by (nonlinear_arith);
        }
        Point::new(
            crate::geom::div_floor_pos(p.x * BP_PER_UNIT, self.width),
            crate::geom::div_floor_pos(p.y * BP_PER_UNIT, self.height),
        )
    }

    /// Converts a point in unit space (basis points) to level space.
    pub fn uspace_to_lspace(&self, u: Point) -> (r: Point)
        requires
            self.wf(),
            -1_000_000 <= u.x <= 1_000_000,
            -1_000_000 <= u.y <= 1_000_000,
        ensures
            r.x == u.x * self.width as int / (BP_PER_UNIT as int),
            r.y == u.y * self.height as int / (BP_PER_UNIT as int),
    {
        proof {
            assert(-1_000_000_000_000 <= u.x * self.width <= 1_000_000_000_000
                && -1_000_000_000_000 <= u.y * self.height <= 1_000_000_000_000)
                by (nonlinear_arith)
                requires
                    -1_000_000 <= u.x <= 1_000_000,
                    -1_000_000 <= u.y <= 1_000_000,
                    0 < self.width <= 400_000,
                    0 < self.height <= 400_000,
            ;
        }
        Point::new(
            crate::geom::div_floor_pos(u.x * self.width, BP_PER_UNIT),
            crate::geom::div_floor_pos(u.y * self.height, BP_PER_UNIT),
        )
    }

    /// The center of the level.
    pub fn middle(&self) -> (r: Point)
        requires
            self.wf(),
        ensures
            r.x == self.width / 2,
            r.y == self.height / 2,
    {
        Point::new(self.width / 2, self.height / 2)
    }

    /// The placed rooms as collidables: each room's position and its
    /// compound shape relative to that position.
    pub fn produce_collidables(&self) -> (r: Vec<(Point, Vec<CenteredRect>)>)
        requires
            self.wf(),
        ensures
            r@.len() == self.rooms@.len(),
            forall|i: int|
                0 <= i < r@.len() ==> (#[trigger] r@[i]).0 == self.rooms@[i].cr.center
                    && r@[i].1@ == room_shape_spec(self.rooms@[i]),
    {
        let mut out: Vec<(Point, Vec<CenteredRect>)> = Vec::new();
        let mut i: usize = 0;
        while i < self.rooms.len()
            invariant
                self.wf(),
                0 <= i <= self.rooms@.len(),
                out@.len() == i,
                forall|k: int|
                    0 <= k < i ==> (#[trigger] out@[k]).0 == self.rooms@[k].cr.center
                        && out@[k].1@ == room_shape_spec(self.rooms@[k]),
            decreases self.rooms@.len() - i,
        {
            let room: &Room = self.rooms.get(i).unwrap();
            let shape: Vec<CenteredRect> = room.shape();
            out.push((room.location(), shape));
            i = i + 1;
        }
        out
    }

    /// The level-space x coordinate of a cave boundary cell.
    pub open spec fn lspace_x_spec(self, b: (i64, i64)) -> int {
        (b.0 * BP_PER_UNIT / self.cave_sim.width as int) * self.width / (BP_PER_UNIT as int)
    }

    /// The level-space y coordinate of a cave boundary cell.
    pub open spec fn lspace_y_spec(self, b: (i64, i64)) -> int {
        (b.1 * BP_PER_UNIT / self.cave_sim.height as int) * self.height / (BP_PER_UNIT as int)
    }

    /// Whether two cave boundary points sit at least `m` subunits apart in
    /// level space along x: exactly when the boundary's bounding box is at
    /// least that wide.
    pub open spec fn boundary_spread_x_at_least(self, m: int) -> bool {
        exists|i: int, j: int|
            0 <= i < self.cave_sim.ca_boundary@.len() && 0 <= j
                < self.cave_sim.ca_boundary@.len() && self.lspace_x_spec(
                #[trigger] self.cave_sim.ca_boundary@[i],
            ) - self.lspace_x_spec(#[trigger] self.cave_sim.ca_boundary@[j]) >= m
    }

    /// The same measure along y.
    pub open spec fn boundary_spread_y_at_least(self, m: int) -> bool {
        exists|i: int, j: int|
            0 <= i < self.cave_sim.ca_boundary@.len() && 0 <= j
                < self.cave_sim.ca_boundary@.len() && self.lspace_y_spec(
                #[trigger] self.cave_sim.ca_boundary@[i],
            ) - self.lspace_y_spec(#[trigger] self.cave_sim.ca_boundary@[j]) >= m
    }

    /// A whole candidate batch as registered: rooms and their floor mats
    /// alternating, all sharing one metadata value.
    pub open spec fn is_batch_registration(
        objs: Seq<crate::collision::CollObj>,
        rooms: Seq<Room>,
        dat: CollidableDat,
    ) -> bool {
        &&& objs.len() == 2 * rooms.len()
        &&& forall|i: int|
            0 <= i < rooms.len() ==> Level::is_room_registration(
                #[trigger] objs[2 * i],
                rooms[i],
                dat,
            ) && Level::is_floormat_registration(objs[2 * i + 1], rooms[i], dat)
    }

    /// The cave fence: a registration, under the generic tag and the level's
    /// first entity id, of a room whose outline contains every boundary
    /// point's level-space image, so candidates cannot stray from the cave.
    pub open spec fn is_cave_fence_registration(
        l: Level,
        obj: crate::collision::CollObj,
    ) -> bool {
        exists|fence: Room|
            fence.wf() && (#[trigger] Level::is_room_registration(
                obj,
                fence,
                CollidableDat { otype: CollidableType::Generic, id: l.tmp_ent_ct },
            )) && forall|i: int|
                0 <= i < l.cave_sim.ca_boundary@.len() ==> fence.cr.left_edge_spec()
                    <= l.lspace_x_spec(#[trigger] l.cave_sim.ca_boundary@[i])
                    <= fence.cr.right_edge_spec() && fence.cr.top_edge_spec() <= l.lspace_y_spec(
                    l.cave_sim.ca_boundary@[i],
                ) <= fence.cr.bottom_edge_spec()
    }

    /// The axis-aligned bounding box of the cave boundary in level space:
    /// its minimal and maximal corners. Every boundary point lies within it,
    /// and each of its four edges touches some boundary point.
    pub fn cave_bound_box(&self) -> (r: (Point, Point))
        requires
            self.wf(),
            self.cave_sim.ca_boundary@.len() > 0,
        ensures
            0 <= r.0.x <= r.1.x <= self.width,
            0 <= r.0.y <= r.1.y <= self.height,
            forall|i: int|
                0 <= i < self.cave_sim.ca_boundary@.len() ==> r.0.x <= self.lspace_x_spec(
                    #[trigger] self.cave_sim.ca_boundary@[i],
                ) <= r.1.x && r.0.y <= self.lspace_y_spec(self.cave_sim.ca_boundary@[i]) <= r.1.y,
            exists|i: int|
                0 <= i < self.cave_sim.ca_boundary@.len() && self.lspace_x_spec(
                    #[trigger] self.cave_sim.ca_boundary@[i],
                ) == r.0.x,
            exists|i: int|
                0 <= i < self.cave_sim.ca_boundary@.len() && self.lspace_x_spec(
                    #[trigger] self.cave_sim.ca_boundary@[i],
                ) == r.1.x,
            exists|i: int|
                0 <= i < self.cave_sim.ca_boundary@.len() && self.lspace_y_spec(
                    #[trigger] self.cave_sim.ca_boundary@[i],
                ) == r.0.y,
            exists|i: int|
                0 <= i < self.cave_sim.ca_boundary@.len() && self.lspace_y_spec(
                    #[trigger] self.cave_sim.ca_boundary@[i],
                ) == r.1.y,
    {
        let first: (i64, i64) = *self.cave_sim.ca_boundary.get(0).unwrap();
        let (fx, fy): (i64, i64) = self.lspace_of_cell(first);
        let mut min_x: i64 = fx;
        let mut max_x: i64 = fx;
        let mut min_y: i64 = fy;
        let mut max_y: i64 = fy;
        let mut i: usize = 1;
        while i < self.cave_sim.ca_boundary.len()
            invariant
                self.wf(),
                self.cave_sim.ca_boundary@.len() > 0,
                1 <= i <= self.cave_sim.ca_boundary@.len(),
                0 <= min_x <= max_x <= self.width,
                0 <= min_y <= max_y <= self.height,
                forall|k: int|
                    0 <= k < i ==> min_x <= self.lspace_x_spec(
                        #[trigger] self.cave_sim.ca_boundary@[k],
                    ) <= max_x && min_y <= self.lspace_y_spec(self.cave_sim.ca_boundary@[k])
                        <= max_y,
                exists|k: int|
                    0 <= k < i && self.lspace_x_spec(#[trigger] self.cave_sim.ca_boundary@[k])
                        == min_x,
                exists|k: int|
                    0 <= k < i && self.lspace_x_spec(#[trigger] self.cave_sim.ca_boundary@[k])
                        == max_x,
                exists|k: int|
                    0 <= k < i && self.lspace_y_spec(#[trigger] self.cave_sim.ca_boundary@[k])
                        == min_y,
                exists|k: int|
                    0 <= k < i && self.lspace_y_spec(#[trigger] self.cave_sim.ca_boundary@[k])
                        == max_y,
            decreases self.cave_sim.ca_boundary@.len() - i,
        {
            let p: (i64, i64) = *self.cave_sim.ca_boundary.get(i).unwrap();
            let (lx, ly): (i64, i64) = self.lspace_of_cell(p);
            if lx < min_x {
                min_x = lx;
            }
            if lx > max_x {
                max_x = lx;
            }
            if ly < min_y {
                min_y = ly;
            }
            if ly > max_y {
                max_y = ly;
            }
            i = i + 1;
        }
        (Point::new(min_x, min_y), Point::new(max_x, max_y))
    }

    /// Maps one cave boundary cell through unit space into level space.
    fn lspace_of_cell(&self, p: (i64, i64)) -> (r: (i64, i64))
        requires
            self.wf(),
            0 <= p.0 < self.cave_sim.width,
            0 <= p.1 < self.cave_sim.height,
        ensures
            r.0 == self.lspace_x_spec(p),
            r.1 == self.lspace_y_spec(p),
            0 <= r.0 <= self.width,
            0 <= r.1 <= self.height,
    {
        proof {
            assert(0 <= p.0 * BP_PER_UNIT <= 10_000_000 && 0 <= p.1 * BP_PER_UNIT <= 10_000_000)
                by (nonlinear_arith)
                requires
                    0 <= p.0 <= 1000,
                    0 <= p.1 <= 1000,
                    BP_PER_UNIT == 10000,
            ;
            assert((p.0 * BP_PER_UNIT / self.cave_sim.width as int) < BP_PER_UNIT && (p.1
                * BP_PER_UNIT / self.cave_sim.height as int) < BP_PER_UNIT && 0 <= p.0
                * BP_PER_UNIT / self.cave_sim.width as int && 0 <= p.1 * BP_PER_UNIT
                / self.cave_sim.height as int) by (nonlinear_arith)
                requires
                    0 <= p.0 < self.cave_sim.width,
                    0 <= p.1 < self.cave_sim.height,
                    4 <= self.cave_sim.width <= 1000,
                    4 <= self.cave_sim.height <= 1000,
                    BP_PER_UNIT == 10000,
            ;
        }
        let ux: i64 = crate::geom::div_floor_pos(p.0 * BP_PER_UNIT, self.cave_sim.width as i64);
        let uy: i64 = crate::geom::div_floor_pos(p.1 * BP_PER_UNIT, self.cave_sim.height as i64);
        proof {
            assert(0 <= ux * self.width <= 10_000_000_000 && 0 <= uy * self.height
                <= 10_000_000_000 && ux * self.width / 10000 <= self.width && uy * self.height
                / 10000 <= self.height && 0 <= ux * self.width / 10000 && 0 <= uy * self.height
                / 10000) by (nonlinear_arith)
                requires
                    0 <= ux < 10000,
                    0 <= uy < 10000,
                    0 < self.width <= 400_000,
                    0 < self.height <= 400_000,
            ;
        }
        let lx: i64 = crate::geom::div_floor_pos(ux * self.width, BP_PER_UNIT);
        let ly: i64 = crate::geom::div_floor_pos(uy * self.height, BP_PER_UNIT);
        (lx, ly)
    }

    /// What one room's registration in the collision world looks like: the
    /// room's wall shape, placed at the room's center, under the wall group
    /// and the given metadata.
    pub open spec fn is_room_registration(
        obj: crate::collision::CollObj,
        room: Room,
        dat: CollidableDat,
    ) -> bool {
        &&& obj.pos == room.cr.center
        &&& obj.parts@ == room_shape_spec(room)
        &&& crate::collision::is_wall_group(obj.group)
        &&& obj.dat == dat
    }

    /// What a door floor mat's registration looks like: the mat rectangle at
    /// the door's center, under the default groups and the same metadata as
    /// its room, so it can never collide with its own room.
    pub open spec fn is_floormat_registration(
        obj: crate::collision::CollObj,
        room: Room,
        dat: CollidableDat,
    ) -> bool {
        &&& obj.pos == floormat_spec(room.door).center
        &&& obj.parts@ == seq![
            CenteredRect {
                center: Point { x: 0, y: 0 },
                width: floormat_spec(room.door).width,
                height: floormat_spec(room.door).height,
            },
        ]
        &&& crate::collision::is_default_group(obj.group)
        &&& obj.dat == dat
    }

    /// Registers the candidate rooms and their door floor mats in the
    /// collision world and reports whether the world is then free of
    /// contacts; hands back the handles so a colliding candidate can be
    /// rolled back.
    pub fn check_room_collisions(
        collw: &mut CollW,
        nu_rooms: &Vec<Room>,
        cw_dat: CollidableDat,
    ) -> (r: (Vec<u64>, bool))
        requires
            old(collw).wf(),
            old(collw).next_handle <= 0x2_0000_0000,
            nu_rooms@.len() <= 5,
            forall|i: int|
                0 <= i < nu_rooms@.len() ==> (#[trigger] nu_rooms@[i]).wf() && -44_000_000
                    <= nu_rooms@[i].cr.center.x <= 44_000_000 && -44_000_000
                    <= nu_rooms@[i].cr.center.y <= 44_000_000 && -44_000_000
                    <= nu_rooms@[i].door.cr.center.x <= 44_000_000 && -44_000_000
                    <= nu_rooms@[i].door.cr.center.y <= 44_000_000,
        ensures
            final(collw).wf(),
            final(collw).next_handle == old(collw).next_handle + 2 * nu_rooms@.len(),
            r.1 == !any_contacts_spec(final(collw).objs@),
            final(collw).objs@.len() == old(collw).objs@.len() + 2 * nu_rooms@.len(),
            final(collw).objs@.take(old(collw).objs@.len() as int) == old(collw).objs@,
            forall|j: int|
                old(collw).objs@.len() <= j < final(collw).objs@.len() ==> r.0@.contains(
                    (#[trigger] final(collw).objs@[j]).handle,
                ),
            forall|k: int| 0 <= k < r.0@.len() ==> #[trigger] r.0@[k] >= old(collw).next_handle,
            r.0@.len() == 2 * nu_rooms@.len(),
            forall|k: int|
                0 <= k < r.0@.len() ==> #[trigger] r.0@[k] == old(collw).next_handle + k,
            forall|i: int|
                0 <= i < nu_rooms@.len() ==> Level::is_room_registration(
                    #[trigger] final(collw).objs@[old(collw).objs@.len() + 2 * i],
                    nu_rooms@[i],
                    cw_dat,
                ) && Level::is_floormat_registration(
                    final(collw).objs@[old(collw).objs@.len() + 2 * i + 1],
                    nu_rooms@[i],
                    cw_dat,
                ),
    {
        let mut coll_handles: Vec<u64> = Vec::new();
        let mut i: usize = 0;
        while i < nu_rooms.len()
            invariant
                collw.wf(),
                0 <= i <= nu_rooms@.len(),
                nu_rooms@.len() <= 5,
                forall|k: int|
                    0 <= k < nu_rooms@.len() ==> (#[trigger] nu_rooms@[k]).wf() && -44_000_000
                        <= nu_rooms@[k].cr.center.x <= 44_000_000 && -44_000_000
                        <= nu_rooms@[k].cr.center.y <= 44_000_000 && -44_000_000
                        <= nu_rooms@[k].door.cr.center.x <= 44_000_000 && -44_000_000
                        <= nu_rooms@[k].door.cr.center.y <= 44_000_000,
                old(collw).next_handle <= 0x2_0000_0000,
                collw.next_handle == old(collw).next_handle + 2 * i,
                collw.objs@.len() == old(collw).objs@.len() + 2 * i,
                collw.objs@.take(old(collw).objs@.len() as int) == old(collw).objs@,
                forall|j: int|
                    old(collw).objs@.len() <= j < collw.objs@.len() ==> coll_handles@.contains(
                        (#[trigger] collw.objs@[j]).handle,
                    ),
                forall|k: int|
                    0 <= k < coll_handles@.len() ==> #[trigger] coll_handles@[k] >= old(
                        collw,
                    ).next_handle,
                coll_handles@.len() == 2 * i,
                forall|k: int|
                    0 <= k < coll_handles@.len() ==> #[trigger] coll_handles@[k] == old(
                        collw,
                    ).next_handle + k,
                forall|j: int|
                    0 <= j < i ==> Level::is_room_registration(
                        #[trigger] collw.objs@[old(collw).objs@.len() + 2 * j],
                        nu_rooms@[j],
                        cw_dat,
                    ) && Level::is_floormat_registration(
                        collw.objs@[old(collw).objs@.len() + 2 * j + 1],
                        nu_rooms@[j],
                        cw_dat,
                    ),
            decreases nu_rooms@.len() - i,
        {
            let room: &Room = nu_rooms.get(i).unwrap();
            let shape: Vec<CenteredRect> = room.shape();
            let group = room.collision_group();
            let ghost handles_before: Seq<u64> = coll_handles@;
            let ghost objs_before: Seq<crate::collision::CollObj> = collw.objs@;
            let h1: u64 = collw.register(room.location(), shape, group, cw_dat);
            coll_handles.push(h1);
            let mat: CenteredRect = room.floormat();
            let mut mat_parts: Vec<CenteredRect> = Vec::new();
            mat_parts.push(
                CenteredRect::new(Point::new(0, 0), mat.width, mat.height),
            );
            let mat_group = crate::collision::CollisionGroups::new();
            let h2: u64 = collw.register(mat.center, mat_parts, mat_group, cw_dat);
            coll_handles.push(h2);
            proof {
                assert(collw.objs@.take(old(collw).objs@.len() as int) =~= objs_before.take(
                    old(collw).objs@.len() as int,
                ));
                let at = old(collw).objs@.len() + 2 * i;
                assert(collw.objs@[at].parts@ == room_shape_spec(nu_rooms@[i as int]));
                assert(collw.objs@[at + 1].parts@ =~= seq![
                    CenteredRect {
                        center: Point { x: 0, y: 0 },
                        width: floormat_spec(nu_rooms@[i as int].door).width,
                        height: floormat_spec(nu_rooms@[i as int].door).height,
                    },
                ]);
                assert(Level::is_room_registration(collw.objs@[at], nu_rooms@[i as int], cw_dat));
                assert(Level::is_floormat_registration(
                    collw.objs@[at + 1],
                    nu_rooms@[i as int],
                    cw_dat,
                ));
                assert forall|j: int|
                    old(collw).objs@.len() <= j < collw.objs@.len() implies coll_handles@.contains(
                    (#[trigger] collw.objs@[j]).handle,
                ) by {
                    if j < objs_before.len() {
                        assert(collw.objs@[j] == objs_before[j]);
                        assert(handles_before.contains(objs_before[j].handle));
                        let k = choose|k: int|
                            0 <= k < handles_before.len() && handles_before[k]
                                == objs_before[j].handle;
                        assert(coll_handles@[k] == objs_before[j].handle);
                    } else if j == objs_before.len() {
                        assert(collw.objs@[j].handle == h1);
                        assert(coll_handles@[coll_handles@.len() - 2] == h1);
                    } else {
                        assert(collw.objs@[j].handle == h2);
                        assert(coll_handles@[coll_handles@.len() - 1] == h2);
                    }
                }
            }
            i = i + 1;
        }
        let no_collisions: bool = has_no_collisions(collw);
        (coll_handles, no_collisions)
    }

    /// One room-placement tick. Reports the stage complete once the target
    /// count is reached, or after the attempt budget is spent, in which case
    /// the level is marked failed. On the first entry the cave's bounding
    /// box is registered as four pseudo-walls so rooms stay inside the cave.
    #[verifier::rlimit(100)]
    #[verifier::spinoff_prover]
    fn tick_roomsim(&mut self) -> (r: bool)
        requires
            old(self).wf(),
            old(self).gen_stage is RoomSim,
        ensures
            final(self).wf(),
            final(self).gen_stage == old(self).gen_stage,
            final(self).level_gen_finished == old(self).level_gen_finished,
            final(self).cave_sim == old(self).cave_sim,
            old(self).gen_failed ==> final(self).gen_failed,
            final(self).rooms@.len() >= old(self).rooms@.len(),
            final(self).rooms@.take(old(self).rooms@.len() as int) == old(self).rooms@,
            r ==> final(self).rooms@.len() >= ROOM_TARGET || final(self).gen_failed,
            !r ==> final(self).rooms@.len() > old(self).rooms@.len(),
            ({
                &&& !old(self).gen_failed
                &&& old(self).rooms@.len() < ROOM_TARGET
                &&& old(self).cave_sim.ca_boundary@.len() == 0
            }) ==> r && final(self).gen_failed && final(self).rooms == old(self).rooms,
            ({
                &&& !old(self).gen_failed
                &&& old(self).rooms@.len() < ROOM_TARGET
                &&& old(self).cave_sim.ca_boundary@.len() > 0
                &&& !(old(self).boundary_spread_x_at_least(MIN_PLACEMENT_SPREAD as int) && old(
                    self,
                ).boundary_spread_y_at_least(MIN_PLACEMENT_SPREAD as int))
            }) ==> r && final(self).gen_failed && final(self).rooms == old(self).rooms,
            ({
                &&& !old(self).gen_failed
                &&& old(self).rooms@.len() < ROOM_TARGET
                &&& old(self).cave_sim.ca_boundary@.len() > 0
                &&& old(self).boundary_spread_x_at_least(MIN_PLACEMENT_SPREAD as int)
                &&& old(self).boundary_spread_y_at_least(MIN_PLACEMENT_SPREAD as int)
                &&& old(self).tmp_collw.objs@.len() == 0
            }) ==> final(self).tmp_collw.objs@.len() >= 1 && Level::is_cave_fence_registration(
                *old(self),
                final(self).tmp_collw.objs@[0],
            ),
            !r ==> ({
                let m = final(self).rooms@.len() - old(self).rooms@.len();
                &&& m >= 1
                &&& exists|dat: CollidableDat|
                    (#[trigger] Level::is_batch_registration(
                        final(self).tmp_collw.objs@.skip(
                            final(self).tmp_collw.objs@.len() - 2 * m,
                        ),
                        final(self).rooms@.skip(old(self).rooms@.len() as int),
                        dat,
                    )) && (dat.otype is RoomWall || dat.otype is CompoundRoomWall)
            }),
    {
        if self.gen_failed {
            return true;
        }
        if self.rooms.len() >= ROOM_TARGET {
            return true;
        }
        if self.cave_sim.ca_boundary.len() == 0 {
            // A degenerate cave offers nowhere to place rooms.
            self.gen_failed = true;
            return true;
        }
        let (mins, maxs): (Point, Point) = self.cave_bound_box();
        let ghost b: Seq<(i64, i64)> = self.cave_sim.ca_boundary@;
        if maxs.x - mins.x < MIN_PLACEMENT_SPREAD || maxs.y - mins.y < MIN_PLACEMENT_SPREAD {
            proof {
                if maxs.x - mins.x < MIN_PLACEMENT_SPREAD {
                    assert forall|i: int, j: int|
                        0 <= i < b.len() && 0 <= j < b.len() implies self.lspace_x_spec(
                        #[trigger] b[i],
                    ) - self.lspace_x_spec(#[trigger] b[j]) < MIN_PLACEMENT_SPREAD as int by {
                        assert(mins.x <= self.lspace_x_spec(b[i]) <= maxs.x);
                        assert(mins.x <= self.lspace_x_spec(b[j]) <= maxs.x);
                    }
                    assert(!old(self).boundary_spread_x_at_least(MIN_PLACEMENT_SPREAD as int));
                } else {
                    assert forall|i: int, j: int|
                        0 <= i < b.len() && 0 <= j < b.len() implies self.lspace_y_spec(
                        #[trigger] b[i],
                    ) - self.lspace_y_spec(#[trigger] b[j]) < MIN_PLACEMENT_SPREAD as int by {
                        assert(mins.y <= self.lspace_y_spec(b[i]) <= maxs.y);
                        assert(mins.y <= self.lspace_y_spec(b[j]) <= maxs.y);
                    }
                    assert(!old(self).boundary_spread_y_at_least(MIN_PLACEMENT_SPREAD as int));
                }
            }
            self.gen_failed = true;
            return true;
        }
        proof {
            let ix = choose|i: int| 0 <= i < b.len() && self.lspace_x_spec(b[i]) == maxs.x;
            let jx = choose|j: int| 0 <= j < b.len() && self.lspace_x_spec(b[j]) == mins.x;
            assert(self.lspace_x_spec(b[ix]) - self.lspace_x_spec(b[jx])
                >= MIN_PLACEMENT_SPREAD as int);
            assert(old(self).boundary_spread_x_at_least(MIN_PLACEMENT_SPREAD as int));
            let iy = choose|i: int| 0 <= i < b.len() && self.lspace_y_spec(b[i]) == maxs.y;
            let jy = choose|j: int| 0 <= j < b.len() && self.lspace_y_spec(b[j]) == mins.y;
            assert(self.lspace_y_spec(b[iy]) - self.lspace_y_spec(b[jy])
                >= MIN_PLACEMENT_SPREAD as int);
            assert(old(self).boundary_spread_y_at_least(MIN_PLACEMENT_SPREAD as int));
        }
        let x_range: (i64, i64) = (mins.x, maxs.x);
        let y_range: (i64, i64) = (mins.y, maxs.y);
        let ghost fence_needed: bool = self.tmp_collw.objs@.len() == 0;
        if self.tmp_collw.objs.len() == 0 {
            // First entry: wall the cave's bounding box off, as a room whose
            // outline is the box, rounded onto the placement lattice and
            // padded by a few subunits so it surely contains every boundary
            // point.
            let bw: i64 = maxs.x - mins.x;
            let bh: i64 = maxs.y - mins.y;
            let cxr: i64 = (mins.x + maxs.x) / 2;
            let cyr: i64 = (mins.y + maxs.y) / 2;
            let w4: i64 = ((bw + 3) / 4) * 4 + 8;
            let h4: i64 = ((bh + 3) / 4) * 4 + 8;
            let cx: i64 = cxr - cxr % 2;
            let cy: i64 = cyr - cyr % 2;
            proof {
                assert(w4 % 4 == 0 && bw + 8 <= w4 <= bw + 11 && h4 % 4 == 0 && bh + 8 <= h4 <= bh
                    + 11) by (nonlinear_arith)
                    requires
                        0 <= bw <= 400_000,
                        0 <= bh <= 400_000,
                        w4 == ((bw + 3) / 4) * 4 + 8,
                        h4 == ((bh + 3) / 4) * 4 + 8,
                ;
                assert(cx % 2 == 0 && cx - w4 / 2 <= mins.x && cx + w4 / 2 >= maxs.x)
                    by (nonlinear_arith)
                    requires
                        0 <= mins.x <= maxs.x <= 400_000,
                        cxr == (mins.x + maxs.x) / 2,
                        cx == cxr - cxr % 2,
                        maxs.x - mins.x + 8 <= w4 <= maxs.x - mins.x + 11,
                        w4 % 4 == 0,
                ;
                assert(cy % 2 == 0 && cy - h4 / 2 <= mins.y && cy + h4 / 2 >= maxs.y)
                    by (nonlinear_arith)
                    requires
                        0 <= mins.y <= maxs.y <= 400_000,
                        cyr == (mins.y + maxs.y) / 2,
                        cy == cyr - cyr % 2,
                        maxs.y - mins.y + 8 <= h4 <= maxs.y - mins.y + 11,
                        h4 % 4 == 0,
                ;
            }
            let bb_room: Room = match Room::new_with_centered_door(
                Point::new(cx, cy),
                w4,
                h4,
                Direction::North,
            ) {
                Ok(room) => room,
                Err(()) => vstd::pervasive::unreached(),
            };
            let nxt_id: usize = self.get_and_inc_eid();
            let shape: Vec<CenteredRect> = bb_room.shape();
            let group = bb_room.collision_group();
            let ghost pre: Seq<crate::collision::CollObj> = self.tmp_collw.objs@;
            let _h: u64 = self.tmp_collw.register(
                bb_room.location(),
                shape,
                group,
                CollidableDat::new(CollidableType::Generic, nxt_id),
            );
            proof {
                assert(pre.len() == 0);
                assert(!any_contacts_spec(self.tmp_collw.objs@));
                crate::rooms::lemma_quarter_half(w4 as int);
                crate::rooms::lemma_quarter_half(h4 as int);
                assert(bb_room.cr.left_edge_spec() <= mins.x && bb_room.cr.right_edge_spec()
                    >= maxs.x && bb_room.cr.top_edge_spec() <= mins.y
                    && bb_room.cr.bottom_edge_spec() >= maxs.y);
                let fence_dat = CollidableDat {
                    otype: CollidableType::Generic,
                    id: old(self).tmp_ent_ct,
                };
                assert(Level::is_room_registration(
                    self.tmp_collw.objs@[0],
                    bb_room,
                    fence_dat,
                ));
                assert forall|i: int| 0 <= i < b.len() implies bb_room.cr.left_edge_spec()
                    <= old(self).lspace_x_spec(#[trigger] b[i]) <= bb_room.cr.right_edge_spec()
                    && bb_room.cr.top_edge_spec() <= old(self).lspace_y_spec(b[i])
                    <= bb_room.cr.bottom_edge_spec() by {
                    assert(mins.x <= self.lspace_x_spec(b[i]) <= maxs.x);
                    assert(mins.y <= self.lspace_y_spec(b[i]) <= maxs.y);
                }
                assert(Level::is_cave_fence_registration(*old(self), self.tmp_collw.objs@[0]));
            }
        }
        let mut attempts: u64 = 0;
        let mut placed: bool = false;
        let ghost entry_rooms: int = self.rooms@.len() as int;
        let ghost entry_next: int = old(self).tmp_collw.next_handle as int;
        while attempts < ROOM_ATTEMPT_CAP && !placed
            invariant
                self.cave_sim == old(self).cave_sim,
                self.cave_sim.wf(),
                self.cave_sim.done_closed(),
                self.gen_stage == old(self).gen_stage,
                self.level_gen_finished == old(self).level_gen_finished,
                self.gen_failed == old(self).gen_failed,
                !self.gen_failed,
                self.width == old(self).width,
                self.height == old(self).height,
                800 <= self.width <= 400_000,
                450 <= self.height <= 400_000,
                self.tmp_collw.wf(),
                !any_contacts_spec(self.tmp_collw.objs@),
                self.level_gen_finished == (self.gen_stage is Done),
                self.gen_stage.index_spec() >= 1 ==> self.cave_sim.gen_stage > 3,
                forall|i: int|
                    0 <= i < self.rooms@.len() ==> (#[trigger] self.rooms@[i]).wf() && -44_000_000
                        <= self.rooms@[i].cr.center.x <= 44_000_000 && -44_000_000
                        <= self.rooms@[i].cr.center.y <= 44_000_000 && -44_000_000
                        <= self.rooms@[i].door.cr.center.x <= 44_000_000 && -44_000_000
                        <= self.rooms@[i].door.cr.center.y <= 44_000_000,
                0 <= attempts <= ROOM_ATTEMPT_CAP,
                mins.x <= maxs.x - 120 && mins.y <= maxs.y - 120,
                0 <= mins.x && maxs.x <= self.width,
                0 <= mins.y && maxs.y <= self.height,
                x_range == (mins.x, maxs.x),
                y_range == (mins.y, maxs.y),
                entry_next <= 2000 * (entry_rooms + 1),
                self.rooms@.take(old(self).rooms@.len() as int) == old(self).rooms@,
                entry_rooms == old(self).rooms@.len(),
                !placed ==> self.rooms@.len() == entry_rooms && self.tmp_collw.next_handle
                    <= entry_next + 1 + 10 * attempts,
                placed ==> entry_rooms < self.rooms@.len() <= entry_rooms + 5
                    && self.tmp_collw.next_handle <= entry_next + 11 + 10 * attempts,
                entry_rooms < ROOM_TARGET,
                fence_needed == (old(self).tmp_collw.objs@.len() == 0),
                fence_needed ==> self.tmp_collw.objs@.len() >= 1
                    && Level::is_cave_fence_registration(*old(self), self.tmp_collw.objs@[0]),
                placed ==> ({
                    let m = self.rooms@.len() - entry_rooms;
                    exists|dat: CollidableDat|
                        (#[trigger] Level::is_batch_registration(
                            self.tmp_collw.objs@.skip(self.tmp_collw.objs@.len() - 2 * m),
                            self.rooms@.skip(entry_rooms),
                            dat,
                        )) && (dat.otype is RoomWall || dat.otype is CompoundRoomWall)
                }),
            decreases
                    ROOM_ATTEMPT_CAP - attempts,
                    (if placed {
                        0int
                    } else {
                        1int
                    }),
        {
            let is_compound: bool = rand_range(0, 100) < COMPOUND_SHARE_PCT;
            let mut nu_rooms: Vec<Room> = Vec::new();
            if is_compound {
                match crate::compound_room::CompoundRoomMaker::rand_compound_room(
                    x_range,
                    y_range,
                ) {
                    Ok(rs) => {
                        nu_rooms = rs;
                    },
                    Err(()) => {
                        // A failed compound attempt counts like a collision:
                        // discard and retry.
                        attempts = attempts + 1;
                        continue ;
                    },
                }
            } else {
                nu_rooms.push(Room::new_rand(x_range, y_range));
            }
            let cw_typ: CollidableType = if is_compound {
                CollidableType::CompoundRoomWall
            } else {
                CollidableType::RoomWall
            };
            let eid: usize = self.get_and_inc_eid();
            let cw_dat: CollidableDat = CollidableDat::new(cw_typ, eid);
            let ghost pre_objs: Seq<crate::collision::CollObj> = self.tmp_collw.objs@;
            let ghost pre_next: int = self.tmp_collw.next_handle as int;
            let (coll_handles, no_collisions): (Vec<u64>, bool) = Level::check_room_collisions(
                &mut self.tmp_collw,
                &nu_rooms,
                cw_dat,
            );
            if no_collisions {
                let ghost nuv: Seq<Room> = nu_rooms@;
                let ghost rooms_before: Seq<Room> = self.rooms@;
                let mut nu: Vec<Room> = nu_rooms;
                self.rooms.append(&mut nu);
                placed = true;
                proof {
                    let m = nuv.len() as int;
                    let objs = self.tmp_collw.objs@;
                    assert(self.rooms@.skip(entry_rooms) =~= nuv);
                    assert forall|k: int| 0 <= k < m implies Level::is_room_registration(
                        #[trigger] objs.skip(objs.len() - 2 * m)[2 * k],
                        nuv[k],
                        cw_dat,
                    ) && Level::is_floormat_registration(
                        objs.skip(objs.len() - 2 * m)[2 * k + 1],
                        nuv[k],
                        cw_dat,
                    ) by {
                        assert(objs.skip(objs.len() - 2 * m)[2 * k] == objs[pre_objs.len() + 2
                            * k]);
                        assert(objs.skip(objs.len() - 2 * m)[2 * k + 1] == objs[pre_objs.len() + 2
                            * k + 1]);
                    }
                    assert(Level::is_batch_registration(
                        objs.skip(objs.len() - 2 * m),
                        self.rooms@.skip(entry_rooms),
                        cw_dat,
                    ));
                    if fence_needed {
                        assert(objs[0] == pre_objs[0]) by {
                            assert(objs.take(pre_objs.len() as int)[0] == pre_objs[0]);
                        }
                    }
                }
            } else {
                let ghost pred = |o: crate::collision::CollObj| !coll_handles@.contains(o.handle);
                let ghost registered: Seq<crate::collision::CollObj> = self.tmp_collw.objs@;
                self.tmp_collw.remove(&coll_handles);
                proof {
                    let newly = registered.skip(pre_objs.len() as int);
                    assert(registered =~= pre_objs + newly);
                    Seq::filter_distributes_over_add(pre_objs, newly, pred);
                    assert forall|k: int| 0 <= k < pre_objs.len() implies pred(
                        #[trigger] pre_objs[k],
                    ) by {
                        if coll_handles@.contains(pre_objs[k].handle) {
                            let j = choose|j: int|
                                0 <= j < coll_handles@.len() && coll_handles@[j]
                                    == pre_objs[k].handle;
                        }
                    }
                    lemma_filter_all(pre_objs, pred);
                    assert forall|k: int| 0 <= k < newly.len() implies !pred(
                        #[trigger] newly[k],
                    ) by {
                        assert(newly[k] == registered[pre_objs.len() + k]);
                    }
                    lemma_filter_none(newly, pred);
                    assert(self.tmp_collw.objs@ =~= pre_objs);
                }
                attempts = attempts + 1;
                proof {
                    if fence_needed {
                        assert(self.tmp_collw.objs@[0] == pre_objs[0]);
                    }
                }
            }
        }
        if placed {
            proof {
                assert(final(self).rooms@.len() - old(self).rooms@.len() == self.rooms@.len()
                    - entry_rooms);
            }
            false
        } else {
            self.gen_failed = true;
            true
        }
    }

    fn get_and_inc_eid(&mut self) -> (r: usize)
        ensures
            *final(self) == (Level { tmp_ent_ct: final(self).tmp_ent_ct, ..*old(self) }),
            r == old(self).tmp_ent_ct,
            old(self).tmp_ent_ct < usize::MAX ==> final(self).tmp_ent_ct == old(
                self,
            ).tmp_ent_ct + 1,
            old(self).tmp_ent_ct == usize::MAX ==> final(self).tmp_ent_ct == old(
                self,
            ).tmp_ent_ct,
    {
        let c_id: usize = self.tmp_ent_ct;
        if self.tmp_ent_ct < usize::MAX {
            self.tmp_ent_ct = self.tmp_ent_ct + 1;
        }
        c_id
    }
}

/// Law: the collision world of a well-formed level never holds two shapes in
/// contact. In particular, once a level has completed room placement, a
/// contact query over all registered room and wall shapes returns empty.
pub proof fn lemma_no_room_overlaps(level: Level)
    requires
        level.wf(),
    ensures
        !any_contacts_spec(level.tmp_collw.objs@),
{
}

} // verus!
