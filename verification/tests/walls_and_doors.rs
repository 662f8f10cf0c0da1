//! Wall generation around a door, the door partition, and floor mats.

use dungeongen::direction::Direction;
use dungeongen::geom::{CenteredRect, Point};
use dungeongen::level::{Wall, WALL_THICKNESS};
use dungeongen::rooms::{Room, DOOR_WIDTH};

#[test]
fn test_wall_gen() {
    // A five by ten meter room centered at (10, 10) meters, door centered on
    // the north wall. All values in subunits of 1/80 meter.
    let c_x: i64 = 800;
    let c_y: i64 = 800;
    let w: i64 = 400;
    let h: i64 = 800;
    let side = Direction::North;
    let door = Room::gen_door(c_x, c_y, w, h, side, 0);
    let rect = CenteredRect::new(Point::new(c_x, c_y), w, h);
    let walls = Room::gen_walls(&rect, door, side).unwrap();
    // South wall (recall south is +y): 5.2 by 0.2 meters at (10, 15).
    assert_eq!(walls.len(), 5);
    let sw = Wall::new(Point::new(800, 1200), w + WALL_THICKNESS, WALL_THICKNESS);
    assert!(walls.contains(&(sw, Direction::South)));
    // West wall: 0.2 by 10.2 meters at (7.5, 10).
    let ww = Wall::new(Point::new(600, 800), WALL_THICKNESS, WALL_THICKNESS + h);
    assert!(walls.contains(&(ww, Direction::West)));
    // East wall: 0.2 by 10.2 meters at (12.5, 10).
    let ew = Wall::new(Point::new(1000, 800), WALL_THICKNESS, WALL_THICKNESS + h);
    assert!(walls.contains(&(ew, Direction::East)));
    // North walls flank the door.
    let west_edge = c_x - w / 2 - WALL_THICKNESS / 2;
    let nw1 = Wall::new(
        Point::new(west_edge + (door.left_edge() - west_edge) / 2, 400),
        door.left_edge() - west_edge,
        WALL_THICKNESS,
    );
    assert!(walls.contains(&(nw1, Direction::North)));
    let east_edge = c_x + w / 2 + WALL_THICKNESS / 2;
    let door_rt = door.right_edge();
    let nw2 = Wall::new(
        Point::new(door_rt + (east_edge - door_rt) / 2, 400),
        east_edge - door_rt,
        WALL_THICKNESS,
    );
    assert!(walls.contains(&(nw2, Direction::North)));
}

#[test]
fn centered_door_lands_in_the_middle() {
    let door = Room::gen_door(800, 800, 400, 800, Direction::North, 0);
    assert_eq!(door.cr.center, Point::new(800, 400));
    assert_eq!(door.cr.width, DOOR_WIDTH);
    assert_eq!(door.cr.height, WALL_THICKNESS);
}

#[test]
fn door_partition_adds_up() {
    // On the door-bearing side, the two segments and the door span exactly
    // reconstruct the side length plus one wall thickness.
    let room = Room::new_with_centered_door(Point::new(0, 0), 400, 800, Direction::East).unwrap();
    let mut east_heights: i64 = 0;
    let mut east_walls: i64 = 0;
    for (wall, d) in room.walls.iter() {
        if *d == Direction::East {
            east_heights += wall.height;
            east_walls += 1;
        }
    }
    assert_eq!(east_walls, 2);
    assert_eq!(east_heights + room.door.cr.height, 800 + WALL_THICKNESS);
}

#[test]
fn oversized_door_obliterates_wall() {
    // A door wider than its wall leaves no room for the flanking segments.
    let big_door = dungeongen::rooms::Door::of_width(
        Point::new(0, -100),
        600,
        Direction::North,
    );
    let rect = CenteredRect::new(Point::new(0, 0), 200, 200, );
    assert!(Room::gen_walls(&rect, big_door, Direction::North).is_err());
}

#[test]
fn floormat_extends_across_the_wall() {
    let room = Room::new_with_centered_door(Point::new(0, 0), 320, 320, Direction::South).unwrap();
    let mat = room.floormat();
    assert_eq!(mat.center, Point::new(0, 160));
    assert_eq!(mat.width, DOOR_WIDTH);
    assert_eq!(mat.height, WALL_THICKNESS + 132);
}

#[test]
fn translate_moves_outline_door_and_walls() {
    let mut room = Room::new_with_centered_door(Point::new(0, 0), 400, 400, Direction::North)
        .unwrap();
    let wall_before = room.walls[0].0;
    room.translate(80, -160);
    assert_eq!(room.cr.center, Point::new(80, -160));
    assert_eq!(room.door.cr.center, Point::new(80, -360));
    let wall_after = room.walls[0].0;
    assert_eq!(wall_after.center.x, wall_before.center.x + 80);
    assert_eq!(wall_after.center.y, wall_before.center.y - 160);
    assert_eq!(wall_after.width, wall_before.width);
}
