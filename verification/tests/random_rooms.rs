//! Randomized construction stays within its promised bounds.

use dungeongen::compound_room::CompoundRoomMaker;
use dungeongen::geom::rects_touch;
use dungeongen::rooms::Room;

#[test]
fn random_rooms_respect_their_ranges() {
    for _ in 0..20 {
        let room = Room::new_rand((0, 6400), (0, 3600));
        assert!(0 <= room.cr.center.x && room.cr.center.x <= 6400);
        assert!(0 <= room.cr.center.y && room.cr.center.y <= 3600);
        assert!(176 <= room.cr.width && room.cr.width <= 2400);
        assert!(176 <= room.cr.height && room.cr.height <= 2400);
        assert!(!room.is_compound);
        assert_eq!(room.walls.len(), 5);
    }
}

#[test]
fn compound_rooms_come_in_small_clusters() {
    let mut successes: u32 = 0;
    for _ in 0..100 {
        if let Ok(rooms) = CompoundRoomMaker::rand_compound_room((0, 6400), (0, 3600)) {
            assert!(2 <= rooms.len() && rooms.len() <= 5);
            for r in rooms.iter() {
                assert!(r.is_compound);
                assert_eq!(r.walls.len(), 5);
            }
            // Every room after the first touches an earlier one, outline to
            // outline: the cluster hangs together.
            for i in 1..rooms.len() {
                assert!(rooms[..i].iter().any(|r0| rects_touch(&rooms[i].cr, &r0.cr)));
            }
            successes += 1;
        }
    }
    // The maker may reject unlucky contacts, but a run of one hundred
    // attempts practically always yields several clusters.
    assert!(successes > 0);
}
