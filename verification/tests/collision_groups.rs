//! Collision group membership, whitelists and blacklists.

use dungeongen::collision::CollisionGroups;

fn test_cg() -> CollisionGroups {
    let mut cg = CollisionGroups::new();
    cg.set_membership(&vec![1, 2, 3]);
    cg
}

fn test_cg2() -> CollisionGroups {
    let mut cg = CollisionGroups::new();
    cg.set_membership(&vec![1, 2, 3]);
    cg.set_whitelist(&vec![1, 2]);
    cg
}

fn test_cg3() -> CollisionGroups {
    let mut cg = CollisionGroups::new();
    cg.set_membership(&vec![1, 2, 3]);
    cg.set_whitelist(&vec![1, 2]);
    cg.set_blacklist(&vec![3, 4]);
    cg
}

#[test]
fn test_group_gen() {
    let tcg = test_cg();
    assert!(tcg.is_member_of(1));
    assert!(tcg.is_member_of(2));
    assert!(tcg.is_member_of(3));
    assert!(!tcg.is_member_of(4));
    assert!(tcg.is_group_whitelisted(1));
    let tcg2 = test_cg2();
    assert!(tcg2.is_group_whitelisted(1));
    assert!(tcg2.is_group_whitelisted(2));
    assert!(!tcg2.is_group_whitelisted(3));
    let tcg3 = test_cg3();
    assert!(tcg3.is_group_blacklisted(3));
    assert!(tcg3.is_group_blacklisted(4));
    assert!(!tcg3.is_group_blacklisted(1));
}

#[test]
fn default_groups_interact() {
    let a = CollisionGroups::new();
    let b = CollisionGroups::new();
    assert!(a.can_interact_with_groups(&b));
}

#[test]
fn blacklisted_groups_do_not_interact() {
    let mut a = CollisionGroups::new();
    a.set_membership(&vec![2]);
    let mut b = CollisionGroups::new();
    b.set_blacklist(&vec![2]);
    assert!(!a.can_interact_with_groups(&b));
    assert!(!b.can_interact_with_groups(&a));
}
