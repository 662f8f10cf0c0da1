//! Assembly of whole compound rooms: repeated random extensions snapped
//! onto the cluster, a door punched at each contact, and a final rigid
//! translation of the finished cluster into place.

use crate::compound_room::{
    contact_for_spec, placed_rect_spec, rooms_match_rects, snap_stop_ok, touches_cluster_spec,
    CompoundRoom, CompoundRoomMaker, Contact,
};
use crate::direction::Direction;
use crate::geom::{rects_touch_spec, walk_grid_spec, CenteredRect, GridRect, Point, PolarVec};
use crate::rng::rand_range;
use crate::rooms::{Door, Room, DOOR_WIDTH};
use vstd::prelude::*;

verus! {

/// Rectangle `i` of the cluster touches some earlier rectangle.
pub open spec fn touches_earlier(rects: Seq<GridRect>, i: int) -> bool {
    exists|j: int|
        0 <= j < i && rects_touch_spec(
            (#[trigger] rects[j]).to_rect_spec(),
            rects[i].to_rect_spec(),
        )
}

/// Every rectangle after the first touches an earlier one, so the whole
/// cluster hangs together.
#[verifier::opaque]
pub open spec fn cluster_connected(rects: Seq<GridRect>) -> bool {
    forall|i: int| 1 <= i < rects.len() ==> #[trigger] touches_earlier(rects, i)
}

/// Room `i` of a finished cluster touches some earlier room, outline to
/// outline.
pub open spec fn room_touches_earlier(rooms: Seq<Room>, i: int) -> bool {
    exists|j: int| 0 <= j < i && rects_touch_spec((#[trigger] rooms[j]).cr, rooms[i].cr)
}

/// `post` is `pre` moved rigidly by `(dx, dy)`: outline, door and compound
/// tag all carried along unchanged in shape.
pub open spec fn is_shift_of(post: Room, pre: Room, dx: int, dy: int) -> bool {
    &&& post.cr == (CenteredRect {
        center: Point {
            x: (pre.cr.center.x + dx) as i64,
            y: (pre.cr.center.y + dy) as i64,
        },
        width: pre.cr.width,
        height: pre.cr.height,
    })
    &&& post.door == (Door {
        cr: CenteredRect {
            center: Point {
                x: (pre.door.cr.center.x + dx) as i64,
                y: (pre.door.cr.center.y + dy) as i64,
            },
            width: pre.door.cr.width,
            height: pre.door.cr.height,
        },
        facing: pre.door.facing,
    })
    &&& post.is_compound == pre.is_compound
}

/// A finished compound room as one rigid translation: every room of
/// `rooms` is `base`'s room of the same index moved by the one shared
/// in-range offset, the base cluster sits near the origin, and each base
/// room after the first touches an earlier one, so the cluster is
/// connected and relative geometry is preserved.
#[verifier::opaque]
pub open spec fn cluster_shift_ok(
    rooms: Seq<Room>,
    base: Seq<Room>,
    dx: int,
    dy: int,
    x_range: (i64, i64),
    y_range: (i64, i64),
) -> bool {
    &&& base.len() == rooms.len()
    &&& x_range.0 <= dx <= x_range.1
    &&& y_range.0 <= dy <= y_range.1
    &&& forall|i: int|
        0 <= i < rooms.len() ==> (#[trigger] base[i]).wf() && -30_000_000 <= base[i].cr.center.x
            <= 30_000_000 && -30_000_000 <= base[i].cr.center.y <= 30_000_000 && is_shift_of(
            rooms[i],
            base[i],
            dx,
            dy,
        )
    &&& forall|i: int| 1 <= i < rooms.len() ==> #[trigger] room_touches_earlier(base, i)
}

/// Appending a rectangle that touches some member keeps the cluster
/// chain-connected.
proof fn lemma_chain_extend(rects: Seq<GridRect>, placed: GridRect, j: int)
    requires
        cluster_connected(rects),
        0 <= j < rects.len(),
        rects_touch_spec(placed.to_rect_spec(), rects[j].to_rect_spec()),
    ensures
        cluster_connected(rects.push(placed)),
{
    reveal(cluster_connected);
    let ext = rects.push(placed);
    assert forall|i: int| 1 <= i < ext.len() implies #[trigger] touches_earlier(ext, i) by {
        if i < rects.len() {
            assert(touches_earlier(rects, i));
            let j3 = choose|j3: int|
                0 <= j3 < i && rects_touch_spec(
                    (#[trigger] rects[j3]).to_rect_spec(),
                    rects[i].to_rect_spec(),
                );
            assert(ext[j3] == rects[j3] && ext[i] == rects[i]);
            assert(rects_touch_spec(ext[j3].to_rect_spec(), ext[i].to_rect_spec()));
        } else {
            assert(ext[j] == rects[j] && ext[i] == placed);
            assert(rects_touch_spec(ext[j].to_rect_spec(), ext[i].to_rect_spec()));
        }
    }
}

impl CompoundRoomMaker {
    /// Creates a whole compound room: a starter rectangle, one to four
    /// extension rounds each snapping a fresh random rectangle onto the
    /// cluster and punching a door at the contact, and finally a random
    /// translation of the finished cluster into the given ranges. Any round
    /// whose contact admits no valid door fails the whole attempt; the
    /// caller retries from scratch.
    pub fn rand_compound_room(x_range: (i64, i64), y_range: (i64, i64)) -> (r: Result<
        CompoundRoom,
        (),
    >)
        requires
            -40_000_000 <= x_range.0 <= x_range.1 <= 40_000_000,
            -40_000_000 <= y_range.0 <= y_range.1 <= 40_000_000,
            x_range.1 - x_range.0 >= 8,
            y_range.1 - y_range.0 >= 8,
        ensures
            r matches Ok(rooms) ==> 2 <= rooms@.len() <= 5 && forall|i: int|
                0 <= i < rooms@.len() ==> (#[trigger] rooms@[i]).wf() && rooms@[i].is_compound
                    && x_range.0 - 31_000_000 <= rooms@[i].cr.center.x <= x_range.1 + 31_000_000
                    && y_range.0 - 31_000_000 <= rooms@[i].cr.center.y <= y_range.1 + 31_000_000
                    && x_range.0 - 31_000_000 <= rooms@[i].door.cr.center.x <= x_range.1
                    + 31_000_000 && y_range.0 - 31_000_000 <= rooms@[i].door.cr.center.y
                    <= y_range.1 + 31_000_000,
            r matches Ok(rooms) ==> exists|base: Seq<Room>, dx: int, dy: int|
                #[trigger] cluster_shift_ok(rooms@, base, dx, dy, x_range, y_range),
            r matches Ok(rooms) ==> forall|i: int|
                1 <= i < rooms@.len() ==> #[trigger] room_touches_earlier(rooms@, i),
    {
        let starter: GridRect = CompoundRoomMaker::rand_grid_room();
        let mut maker: CompoundRoomMaker = CompoundRoomMaker::new(starter);
        let num_extensions: i64 = rand_range(1, 5);
        proof {
            assert(cluster_connected(maker.rects@)) by {
                reveal(cluster_connected);
            }
        }
        let mut round: i64 = 0;
        while round < num_extensions
            invariant
                maker.wf(),
                1 <= num_extensions <= 4,
                0 <= round <= num_extensions,
                maker.rects@.len() == round + 1,
                maker.rooms@.len() == round + 1,
                cluster_connected(maker.rects@),
            decreases num_extensions - round,
        {
            let exit_angle: i64 = rand_range(0, 6283);
            let exit: Point = PolarVec::new(1000, exit_angle).to_point();
            let new_rect: GridRect = CompoundRoomMaker::rand_grid_room();
            let ghost rects_before: Seq<GridRect> = maker.rects@;
            let contact: Contact = match maker.snap_to_existing_rooms(&new_rect, exit) {
                Ok(c) => c,
                Err(()) => {
                    return Err(());
                },
            };
            proof {
                let walk = walk_grid_spec(Point { x: 0, y: 0 }, exit);
                let n = choose|n: int|
                    #[trigger] snap_stop_ok(
                        rects_before,
                        new_rect.width as int,
                        new_rect.height as int,
                        walk,
                        n,
                    ) && maker.rects@ == rects_before.push(
                        GridRect {
                            width: new_rect.width,
                            height: new_rect.height,
                            top_left: walk[n - 1],
                        },
                    ) && contact_for_spec(
                        rects_before,
                        new_rect.width as int,
                        new_rect.height as int,
                        walk[n - 1],
                        contact,
                    );
                assert(touches_cluster_spec(
                    rects_before,
                    new_rect.width as int,
                    new_rect.height as int,
                    walk[n - 1],
                ));
                let j = choose|j: int|
                    0 <= j < rects_before.len() && rects_touch_spec(
                        (#[trigger] rects_before[j]).to_rect_spec(),
                        placed_rect_spec(
                            new_rect.width as int,
                            new_rect.height as int,
                            walk[n - 1],
                        ).to_rect_spec(),
                    );
                lemma_chain_extend(
                    rects_before,
                    GridRect {
                        width: new_rect.width,
                        height: new_rect.height,
                        top_left: walk[n - 1],
                    },
                    j,
                );
            }
            let midpt: Point = match maker.find_wall_overlap_midpoint(&contact) {
                Ok(p) => p,
                Err(()) => {
                    return Err(());
                },
            };
            let contact_dir: Direction = Direction::from_normal(
                (contact.normal.x, contact.normal.y),
            );
            let door: Door = Door::of_width(midpt, DOOR_WIDTH, contact_dir);
            let moved_room: GridRect = *maker.rects.get(maker.rects.len() - 1).unwrap();
            let room: Room = match CompoundRoomMaker::grid_room_to_room(&moved_room, door) {
                Ok(room) => room,
                Err(()) => {
                    return Err(());
                },
            };
            maker.rooms.push(room);
            proof {
                assert(rooms_match_rects(maker.rooms@, maker.rects@)) by {
                    reveal(rooms_match_rects);
                }
            }
            round = round + 1;
        }
        // Shift the whole cluster into a randomly selected position,
        // preserving relative geometry.
        let kx_lo: i64 = crate::geom::div_ceil8(x_range.0);
        let kx_hi: i64 = crate::geom::div_floor8(x_range.1);
        let ky_lo: i64 = crate::geom::div_ceil8(y_range.0);
        let ky_hi: i64 = crate::geom::div_floor8(y_range.1);
        let c_x: i64 = 8 * rand_range(kx_lo, kx_hi + 1);
        let c_y: i64 = 8 * rand_range(ky_lo, ky_hi + 1);
        let mut rooms: Vec<Room> = maker.rooms;
        let ghost pre_rooms: Seq<Room> = rooms@;
        proof {
            reveal(cluster_connected);
            reveal(rooms_match_rects);
            assert forall|i: int| 1 <= i < pre_rooms.len() implies #[trigger] room_touches_earlier(
                pre_rooms,
                i,
            ) by {
                assert(touches_earlier(maker.rects@, i));
                let j2 = choose|j2: int|
                    0 <= j2 < i && rects_touch_spec(
                        (#[trigger] maker.rects@[j2]).to_rect_spec(),
                        maker.rects@[i].to_rect_spec(),
                    );
                assert(rects_touch_spec(pre_rooms[j2].cr, pre_rooms[i].cr));
            }
        }
        let mut shifted: Vec<Room> = Vec::new();
        while rooms.len() > 0
            invariant
                forall|i: int|
                    0 <= i < rooms@.len() ==> (#[trigger] rooms@[i]).wf() && rooms@[i].is_compound
                        && -30_000_000 <= rooms@[i].cr.center.x <= 30_000_000 && -30_000_000
                        <= rooms@[i].cr.center.y <= 30_000_000 && -30_000_000
                        <= rooms@[i].door.cr.center.x <= 30_000_000 && -30_000_000
                        <= rooms@[i].door.cr.center.y <= 30_000_000,
                forall|i: int|
                    0 <= i < shifted@.len() ==> (#[trigger] shifted@[i]).wf()
                        && shifted@[i].is_compound && x_range.0 - 31_000_000
                        <= shifted@[i].cr.center.x <= x_range.1 + 31_000_000 && y_range.0
                        - 31_000_000 <= shifted@[i].cr.center.y <= y_range.1 + 31_000_000
                        && x_range.0 - 31_000_000 <= shifted@[i].door.cr.center.x <= x_range.1
                        + 31_000_000 && y_range.0 - 31_000_000 <= shifted@[i].door.cr.center.y
                        <= y_range.1 + 31_000_000,
                shifted@.len() + rooms@.len() == 1 + num_extensions,
                pre_rooms.len() == 1 + num_extensions,
                rooms@ == pre_rooms.skip(shifted@.len() as int),
                forall|i: int|
                    0 <= i < pre_rooms.len() ==> (#[trigger] pre_rooms[i]).wf()
                        && pre_rooms[i].is_compound && -30_000_000 <= pre_rooms[i].cr.center.x
                        <= 30_000_000 && -30_000_000 <= pre_rooms[i].cr.center.y <= 30_000_000,
                forall|i: int|
                    1 <= i < pre_rooms.len() ==> #[trigger] room_touches_earlier(pre_rooms, i),
                forall|i: int|
                    0 <= i < shifted@.len() ==> is_shift_of(
                        #[trigger] shifted@[i],
                        pre_rooms[i],
                        c_x as int,
                        c_y as int,
                    ),
                c_x % 2 == 0,
                c_y % 2 == 0,
                x_range.0 <= c_x <= x_range.1,
                y_range.0 <= c_y <= y_range.1,
                -40_000_000 <= x_range.0 <= x_range.1 <= 40_000_000,
                -40_000_000 <= y_range.0 <= y_range.1 <= 40_000_000,
            decreases rooms@.len(),
        {
            proof {
                assert(rooms@[0] == pre_rooms[shifted@.len() as int]);
                assert(rooms@.remove(0) =~= pre_rooms.skip(shifted@.len() as int + 1));
            }
            let mut room: Room = rooms.remove(0);
            room.translate(c_x, c_y);
            shifted.push(room);
        }
        proof {
            reveal(cluster_shift_ok);
            assert(cluster_shift_ok(
                shifted@,
                pre_rooms,
                c_x as int,
                c_y as int,
                x_range,
                y_range,
            ));
            assert forall|i: int| 1 <= i < shifted@.len() implies #[trigger] room_touches_earlier(
                shifted@,
                i,
            ) by {
                assert(room_touches_earlier(pre_rooms, i));
                let j2 = choose|j2: int|
                    0 <= j2 < i && rects_touch_spec(
                        (#[trigger] pre_rooms[j2]).cr,
                        pre_rooms[i].cr,
                    );
                assert(rects_touch_spec(shifted@[j2].cr, shifted@[i].cr));
            }
        }
        Ok(shifted)
    }

    /// A randomly sized grid rectangle with its top-left corner at the
    /// origin: each side approximately normal around five meters with a
    /// spread of three, folded positive and clamped to hold a door with a
    /// little wiggle room, at most thirty meters.
    fn rand_grid_room() -> (r: GridRect)
        ensures
            r.wf(),
            2 <= r.width <= 30,
            2 <= r.height <= 30,
            r.top_left == (Point { x: 0, y: 0 }),
    {
        let w = CompoundRoomMaker::rand_grid_dim();
        let h = CompoundRoomMaker::rand_grid_dim();
        GridRect::new(w, h, Point::new(0, 0))
    }

    /// One random grid extent in whole meters.
    fn rand_grid_dim() -> (r: i64)
        ensures
            2 <= r <= 30,
    {
        let mut sum: i64 = 0;
        let mut k: usize = 0;
        while k < 12
            invariant
                0 <= k <= 12,
                0 <= sum <= 29 * k,
            decreases 12 - k,
        {
            sum = sum + rand_range(0, 30);
            k = k + 1;
        }
        // In tenths of a meter: mean 50, spread about 30; the floor leaves
        // room for a door plus a little extra.
        let centered: i64 = sum - 124;
        let folded: i64 = if centered < 0 {
            -centered
        } else {
            centered
        };
        let clamped: i64 = if folded < 24 {
            24
        } else if folded > 300 {
            300
        } else {
            folded
        };
        clamped / 10
    }
}

} // verus!
