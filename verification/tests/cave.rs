//! The cave automaton: boundary tracing robustness, smoothing, closure.

use dungeongen::ca_simulator::CASim;

#[test]
fn test_boundary_doesnt_get_stuck() {
    let mut tsim = CASim::new(10, 10);
    tsim.ca_grid[3][3] = true;
    tsim.ca_grid[3][2] = true;
    tsim.ca_grid[4][3] = true;
    tsim.ca_grid[4][2] = true;
    tsim.ca_grid[5][1] = true;
    while !tsim.tick_cave_boundary() {}
}

#[test]
fn smoothing_keeps_every_second_point() {
    let mut sim = CASim::new(8, 8);
    sim.ca_boundary = vec![(0, 0), (1, 1), (2, 2), (3, 3), (4, 4), (5, 5), (6, 6)];
    assert!(sim.smooth_cave_boundary());
    assert_eq!(sim.ca_boundary, vec![(1, 1), (3, 3), (5, 5)]);
}

#[test]
fn smoothing_at_most_halves_the_length() {
    let mut sim = CASim::new(8, 8);
    sim.ca_boundary = vec![(0, 0), (0, 1), (1, 2), (2, 2), (3, 3), (4, 4)];
    let before = sim.ca_boundary.len();
    sim.smooth_cave_boundary();
    assert_eq!(sim.ca_boundary.len(), before / 2);
    assert!(sim.ca_boundary.len() <= before);
}

#[test]
fn generated_boundary_is_closed_and_in_bounds() {
    let mut sim = CASim::new(24, 24);
    if sim.generate() {
        let b = &sim.ca_boundary;
        assert!(!b.is_empty());
        assert_eq!(b.first(), b.last());
        for p in b.iter() {
            assert!(0 <= p.0 && p.0 < 24);
            assert!(0 <= p.1 && p.1 < 24);
        }
    }
}

#[test]
fn unit_space_boundary_follows_the_projection() {
    let mut sim = CASim::new(10, 10);
    sim.ca_boundary = vec![(0, 0), (5, 5), (9, 9)];
    let pts = sim.uspace_boundary(dungeongen::geom::Point::new(0, 0));
    assert_eq!(pts.len(), 3);
    assert_eq!((pts[1].x, pts[1].y), (5000, 5000));
    assert_eq!((pts[2].x, pts[2].y), (9000, 9000));
    let shifted = sim.uspace_gboundary();
    assert_eq!((shifted[1].x, shifted[1].y), (0, 0));
    assert_eq!((shifted[0].x, shifted[0].y), (-5000, -5000));
}
