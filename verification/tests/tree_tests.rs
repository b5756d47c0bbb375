use shooter::hitbox::{Hitbox, Vec2};
use shooter::hitbox_tree::HitboxTree;

fn boxed(x: i32, y: i32, w: i32, h: i32) -> Hitbox {
    Hitbox::new(Vec2::new(x, y), Vec2::new(w, h))
}

#[test]
fn construction_and_iteration() {
    let mut t = HitboxTree::new(boxed(0, 0, 30, 30));
    let c1 = t.add_child(0, boxed(5, 5, 10, 10));
    let c2 = t.add_child(0, boxed(20, 20, 5, 5));
    let g = t.add_child(c1, boxed(6, 6, 2, 2));
    assert_eq!(c1, 1);
    assert_eq!(c2, 2);
    assert_eq!(g, 3);
    assert_eq!(t.node_count(), 4);
    let all = t.bfs_iter();
    assert_eq!(all.len(), 4);
    assert_eq!(all[0], boxed(0, 0, 30, 30));
    assert_eq!(all[1], boxed(5, 5, 10, 10));
    assert_eq!(all[2], boxed(20, 20, 5, 5));
    assert_eq!(all[3], boxed(6, 6, 2, 2));
    assert_eq!(t.root(), boxed(0, 0, 30, 30));
}

#[test]
fn move_delta_is_rigid() {
    let mut t = HitboxTree::new(boxed(0, 0, 30, 30));
    t.add_child(0, boxed(5, 5, 10, 10));
    t.add_child(0, boxed(20, 20, 5, 5));
    t.move_delta(Vec2::new(7, -3));
    let all = t.bfs_iter();
    assert_eq!(all[0].point, Vec2::new(7, -3));
    assert_eq!(all[1].point, Vec2::new(12, 2));
    assert_eq!(all[2].point, Vec2::new(27, 17));
    // Sizes are untouched.
    assert_eq!(all[0].size, Vec2::new(30, 30));
    assert_eq!(all[1].size, Vec2::new(10, 10));
}

#[test]
fn translate_twice_equals_translate_once_by_sum() {
    let build = || {
        let mut t = HitboxTree::new(boxed(0, 0, 30, 30));
        t.add_child(0, boxed(5, 5, 10, 10));
        t.add_child(0, boxed(20, 20, 5, 5));
        t
    };
    let mut twice = build();
    twice.move_delta(Vec2::new(11, -4));
    twice.move_delta(Vec2::new(-6, 9));
    let mut once = build();
    once.move_delta(Vec2::new(5, 5));
    assert_eq!(twice.bfs_iter(), once.bfs_iter());
}

#[test]
fn single_node_overlapping_trees_collide() {
    let a = HitboxTree::new(boxed(0, 0, 30, 30));
    let b = HitboxTree::new(boxed(10, 10, 30, 30));
    assert!(a.collides_with(&b));
    assert!(b.collides_with(&a));
}

#[test]
fn broad_phase_short_circuits_distant_anchors() {
    // Huge boxes that overlap geometrically, but whose anchors sit in grid
    // cells more than one apart: the broad phase rules the pair out.
    let a = HitboxTree::new(boxed(0, 0, 500, 500));
    let b = HitboxTree::new(boxed(400, 400, 50, 50));
    let raw_overlap = boxed(0, 0, 500, 500).collides_with(&boxed(400, 400, 50, 50));
    assert!(raw_overlap);
    assert!(!a.collides_with(&b));
    assert!(!b.collides_with(&a));
}

#[test]
fn adjacent_cells_pass_broad_phase() {
    let a = HitboxTree::new(boxed(91, 0, 30, 30));
    let b = HitboxTree::new(boxed(92, 0, 30, 30));
    assert!(a.collides_with(&b));
}

#[test]
fn disjoint_multi_level_trees_in_same_cell() {
    // Roots overlap and sit in the same grid cell, but no leaf pair does:
    // the search exhausts a frontier and answers false.
    let mut a = HitboxTree::new(boxed(0, 0, 80, 80));
    let a1 = a.add_child(0, boxed(0, 0, 10, 10));
    a.add_child(a1, boxed(2, 2, 5, 5));
    a.add_child(0, boxed(50, 0, 10, 10));
    let mut b = HitboxTree::new(boxed(5, 5, 80, 80));
    b.add_child(0, boxed(20, 20, 10, 10));
    b.add_child(0, boxed(40, 40, 5, 5));
    assert!(!a.collides_with(&b));
    assert!(!b.collides_with(&a));
}

#[test]
fn deep_leaf_collision_is_found() {
    let mut a = HitboxTree::new(boxed(0, 0, 80, 80));
    let a1 = a.add_child(0, boxed(0, 0, 10, 10));
    a.add_child(a1, boxed(2, 2, 5, 5));
    a.add_child(0, boxed(50, 0, 10, 10));
    let mut b = HitboxTree::new(boxed(1, 1, 80, 80));
    b.add_child(0, boxed(3, 3, 10, 10));
    assert!(a.collides_with(&b));
}

#[test]
fn worked_example_two_trees_no_leaf_overlap() {
    // Tree A: root (0,0,30,30) with one child (5,5,10,10); tree B: root
    // (20,20,30,30) with one child (25,25,5,5). The roots overlap and share
    // a grid cell, but the only leaf pair is disjoint, so the answer is
    // false.
    let mut a = HitboxTree::new(boxed(0, 0, 30, 30));
    a.add_child(0, boxed(5, 5, 10, 10));
    let mut b = HitboxTree::new(boxed(20, 20, 30, 30));
    b.add_child(0, boxed(25, 25, 5, 5));
    assert!(!a.collides_with(&b));
    assert!(!b.collides_with(&a));
}

#[test]
fn child_outside_parent_still_collides() {
    // Children need not be contained in the parent box; leaves sticking out
    // of their roots still produce a collision when the search reaches them.
    let mut a = HitboxTree::new(boxed(0, 0, 50, 50));
    a.add_child(0, boxed(45, 45, 20, 20));
    let mut b = HitboxTree::new(boxed(35, 35, 10, 10));
    b.add_child(0, boxed(40, 40, 30, 30));
    assert!(a.collides_with(&b));
}
