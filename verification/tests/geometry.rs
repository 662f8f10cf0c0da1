//! Geometry building blocks: directions, rectangle contact, the grid walk,
//! the polar conversion, and point snapping.

use dungeongen::direction::Direction;
use dungeongen::drawablept::DrawablePt;
use dungeongen::geom::{rects_touch, walk_grid, CenteredRect, Point, PolarVec};

#[test]
fn direction_tables() {
    assert_eq!(Direction::North.opposite(), Direction::South);
    assert_eq!(Direction::NorthEast.opposite(), Direction::SouthWest);
    assert_eq!(Direction::West.to_tup(), (-1, 0));
    assert_eq!(Direction::South.dir_from_tup((3, 4)), (3, 5));
    assert_eq!(Direction::from_normal((0, -1)), Direction::North);
    assert_eq!(Direction::from_normal((1, 0)), Direction::East);
    assert_eq!(Direction::iterator().len(), 8);
    assert_eq!(Direction::compass().len(), 4);
}

#[test]
fn touching_and_separated_rectangles() {
    let a = CenteredRect::new(Point::new(0, 0), 80, 80);
    let b = CenteredRect::new(Point::new(80, 0), 80, 80);
    let c = CenteredRect::new(Point::new(162, 0), 80, 80);
    // Sharing an edge counts as touching; two subunits of gap does not.
    assert!(rects_touch(&a, &b));
    assert!(!rects_touch(&b, &c));
    assert!(rects_touch(&a, &a));
}

#[test]
fn horizontal_walk_visits_every_cell() {
    let pts = walk_grid(Point::new(0, 0), Point::new(4, 0));
    let expect: Vec<Point> = vec![
        Point::new(0, 0),
        Point::new(1, 0),
        Point::new(2, 0),
        Point::new(3, 0),
        Point::new(4, 0),
    ];
    assert_eq!(pts, expect);
}

#[test]
fn diagonal_walk_steps_diagonally() {
    let pts = walk_grid(Point::new(0, 0), Point::new(3, 3));
    let expect: Vec<Point> = vec![
        Point::new(0, 0),
        Point::new(1, 1),
        Point::new(2, 2),
        Point::new(3, 3),
    ];
    assert_eq!(pts, expect);
}

#[test]
fn polar_vector_at_cardinal_angles() {
    // Angle zero points along positive x; a quarter turn along positive y.
    let east = PolarVec::new(1000, 0).to_point();
    assert_eq!(east, Point::new(1000, 0));
    let south = PolarVec::new(1000, 1571).to_point();
    assert_eq!(south.x, 0);
    assert!(995 <= south.y && south.y <= 1000);
}

#[test]
fn snap_rounds_up_to_whole_meters() {
    assert_eq!(DrawablePt(Point::new(81, 80)).snap(), DrawablePt(Point::new(160, 80)));
    assert_eq!(DrawablePt(Point::new(-1, 1)).snap(), DrawablePt(Point::new(0, 80)));
}
