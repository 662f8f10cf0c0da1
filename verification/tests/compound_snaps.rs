//! Grid-snap determinism of the compound room maker, and door rejection on
//! too-narrow wall overlaps.

use dungeongen::compound_room::CompoundRoomMaker;
use dungeongen::geom::{GridRect, Point};

#[test]
fn test_simple_snap() {
    let mut maker = CompoundRoomMaker::new(GridRect::new(1, 1, Point::new(0, 0)));
    let new_rect = GridRect::new(1, 1, Point::new(0, 0));
    maker.snap_to_existing_rooms(&new_rect, Point::new(1000, 0)).unwrap();
    assert_eq!(GridRect::new(1, 1, Point::new(1, 0)), *maker.rects.last().unwrap());
}

#[test]
fn test_series_of_snaps() {
    let mut maker = CompoundRoomMaker::new(GridRect::new(1, 1, Point::new(0, 0)));
    // Up
    let new_rect = GridRect::new(1, 1, Point::new(0, 0));
    maker.snap_to_existing_rooms(&new_rect, Point::new(0, 1000)).unwrap();
    assert_eq!(GridRect::new(1, 1, Point::new(0, 1)), *maker.rects.last().unwrap());
    // Right
    let new_rect = GridRect::new(4, 1, Point::new(0, 0));
    maker.snap_to_existing_rooms(&new_rect, Point::new(1000, 0)).unwrap();
    assert_eq!(GridRect::new(4, 1, Point::new(1, 0)), *maker.rects.last().unwrap());
    // Up again, two more times
    let new_rect = GridRect::new(1, 1, Point::new(0, 0));
    maker.snap_to_existing_rooms(&new_rect, Point::new(0, 1000)).unwrap();
    assert_eq!(GridRect::new(1, 1, Point::new(0, 2)), *maker.rects.last().unwrap());

    let new_rect = GridRect::new(1, 1, Point::new(0, 0));
    maker.snap_to_existing_rooms(&new_rect, Point::new(0, 1000)).unwrap();
    assert_eq!(GridRect::new(1, 1, Point::new(0, 3)), *maker.rects.last().unwrap());
    // Diagonally up and right
    let new_rect = GridRect::new(1, 1, Point::new(0, 0));
    maker.snap_to_existing_rooms(&new_rect, Point::new(707, 707)).unwrap();
    assert_eq!(GridRect::new(1, 1, Point::new(1, 1)), *maker.rects.last().unwrap());
    // Right again
    let new_rect = GridRect::new(1, 1, Point::new(0, 0));
    maker.snap_to_existing_rooms(&new_rect, Point::new(1000, 0)).unwrap();
    assert_eq!(GridRect::new(1, 1, Point::new(5, 0)), *maker.rects.last().unwrap());
}

#[test]
fn snap_without_contact_fails() {
    let mut maker = CompoundRoomMaker::new(GridRect::new(1, 1, Point::new(10, 10)));
    let new_rect = GridRect::new(1, 1, Point::new(0, 0));
    assert!(maker.snap_to_existing_rooms(&new_rect, Point::new(1000, 0)).is_err());
}

#[test]
fn narrow_overlap_rejects_door() {
    // Two one-meter rooms share only a one-meter wall stretch: too narrow
    // for a door plus its margins, so the midpoint search must fail.
    let mut maker = CompoundRoomMaker::new(GridRect::new(1, 1, Point::new(0, 0)));
    let new_rect = GridRect::new(1, 1, Point::new(0, 0));
    let contact = maker.snap_to_existing_rooms(&new_rect, Point::new(1000, 0)).unwrap();
    assert!(maker.find_wall_overlap_midpoint(&contact).is_err());
}

#[test]
fn wide_overlap_yields_midpoint_door() {
    // Two three-meter rooms share a full side: the door lands at its middle.
    let mut maker = CompoundRoomMaker::new(GridRect::new(3, 3, Point::new(0, 0)));
    let new_rect = GridRect::new(3, 3, Point::new(0, 0));
    let contact = maker.snap_to_existing_rooms(&new_rect, Point::new(1000, 0)).unwrap();
    let midpt = maker.find_wall_overlap_midpoint(&contact).unwrap();
    assert_eq!(midpt, Point::new(240, 120));
}
