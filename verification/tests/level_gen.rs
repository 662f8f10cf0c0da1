//! Level generation end to end: the no-overlap invariant, nesting rooms,
//! and floor mat clearance.

use dungeongen::collision::{has_no_collisions, new_collw, CollidableDat, CollidableType};
use dungeongen::direction::Direction;
use dungeongen::geom::Point;
use dungeongen::level::{Level, LevelGenStage};
use dungeongen::rooms::Room;

#[test]
fn test_no_room_collisions() {
    let mut l = Level::new();
    while matches!(l.gen_stage, LevelGenStage::CaveSim | LevelGenStage::RoomSim) {
        l.tick_level_gen();
    }
    assert!(has_no_collisions(&l.tmp_collw));
}

#[test]
fn test_rooms_can_nest() {
    let mut collw = new_collw();
    // A ten-meter room, and a three-meter room wholly inside it.
    let room1 = Room::new_with_centered_door(Point::new(0, 0), 800, 800, Direction::South)
        .unwrap();
    let dat1 = CollidableDat::new(CollidableType::RoomWall, 1);
    let room2 = Room::new_with_centered_door(Point::new(0, 0), 240, 240, Direction::North)
        .unwrap();
    let dat2 = CollidableDat::new(CollidableType::RoomWall, 2);
    Level::check_room_collisions(&mut collw, &vec![room1], dat1);
    let (_, no_collisions) = Level::check_room_collisions(&mut collw, &vec![room2], dat2);
    assert!(no_collisions);
}

#[test]
fn test_room_floormats_work() {
    let mut collw = new_collw();
    // The bottom wall of this room is at 2 meters.
    let room1 = Room::new_with_centered_door(Point::new(0, 0), 320, 320, Direction::South)
        .unwrap();
    let dat1 = CollidableDat::new(CollidableType::RoomWall, 1);
    // The top wall of this room is at 2.25 meters: too close to the door.
    let room2 = Room::new_with_centered_door(Point::new(0, 320), 320, 280, Direction::East)
        .unwrap();
    let dat2 = CollidableDat::new(CollidableType::RoomWall, 2);
    let (_, no_collisions) = Level::check_room_collisions(&mut collw, &vec![room1], dat1);
    assert!(no_collisions);
    let (_, no_collisions) = Level::check_room_collisions(&mut collw, &vec![room2], dat2);
    // There should be collisions!
    assert!(!no_collisions);
}

#[test]
fn ticking_a_done_level_is_a_no_op() {
    let mut l = Level::new();
    let mut guard: u32 = 0;
    while !l.level_gen_finished && guard < 1_000_000 {
        l.tick_level_gen();
        guard += 1;
    }
    assert!(l.level_gen_finished);
    let rooms_before = l.rooms.len();
    l.tick_level_gen();
    assert!(matches!(l.gen_stage, LevelGenStage::Done));
    assert_eq!(l.rooms.len(), rooms_before);
}

#[test]
fn space_conversions_follow_the_formulas() {
    let l = Level::new();
    let u = l.lspace_to_uspace(Point::new(3200, 1800));
    assert_eq!(u, Point::new(5000, 5000));
    let p = l.uspace_to_lspace(Point::new(5000, 5000));
    assert_eq!(p, Point::new(3200, 1800));
    assert_eq!(l.middle(), Point::new(3200, 1800));
}
