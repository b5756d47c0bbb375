use shooter::hitbox::{get_grid_square, Hitbox, Vec2};

#[test]
fn overlap_basic() {
    let a = Hitbox::new(Vec2::new(0, 0), Vec2::new(10, 10));
    let b = Hitbox::new(Vec2::new(5, 5), Vec2::new(10, 10));
    assert!(a.collides_with(&b));
    assert!(b.collides_with(&a));
}

#[test]
fn overlap_symmetry_on_disjoint_boxes() {
    let a = Hitbox::new(Vec2::new(0, 0), Vec2::new(10, 10));
    let b = Hitbox::new(Vec2::new(50, 0), Vec2::new(10, 10));
    assert_eq!(a.collides_with(&b), b.collides_with(&a));
    assert!(!a.collides_with(&b));
}

#[test]
fn touching_edges_do_not_overlap() {
    let a = Hitbox::new(Vec2::new(0, 0), Vec2::new(10, 10));
    let b = Hitbox::new(Vec2::new(10, 0), Vec2::new(10, 10));
    assert!(!a.collides_with(&b));
    assert!(!b.collides_with(&a));
}

#[test]
fn degenerate_box_never_overlaps_itself() {
    let flat = Hitbox::new(Vec2::new(5, 5), Vec2::new(0, 10));
    // A box with no width never overlaps a copy of itself: the strict
    // inequalities fail on the empty axis.
    assert!(!flat.collides_with(&flat));
    // It still participates in tests against wider boxes it sits inside of.
    let fat = Hitbox::new(Vec2::new(0, 0), Vec2::new(20, 20));
    assert!(flat.collides_with(&fat));
    assert!(fat.collides_with(&flat));
    // At the other box's boundary the strict inequalities fail again.
    let edge = Hitbox::new(Vec2::new(0, 5), Vec2::new(0, 10));
    assert!(!edge.collides_with(&fat));
}

#[test]
fn self_overlap_of_non_degenerate_box() {
    let a = Hitbox::new(Vec2::new(3, 4), Vec2::new(7, 8));
    assert!(a.collides_with(&a));
}

#[test]
fn translation_beyond_extent_separates() {
    let a = Hitbox::new(Vec2::new(0, 0), Vec2::new(10, 10));
    let mut b = a;
    // Shift one copy by the two copies' combined extent along x.
    b.move_delta(Vec2::new(20, 0));
    assert!(!a.collides_with(&b));
    let mut c = a;
    c.move_delta(Vec2::new(0, -20));
    assert!(!a.collides_with(&c));
}

#[test]
fn move_delta_shifts_anchor_only() {
    let mut a = Hitbox::new(Vec2::new(1, 2), Vec2::new(3, 4));
    a.move_delta(Vec2::new(10, -20));
    assert_eq!(a.point, Vec2::new(11, -18));
    assert_eq!(a.size, Vec2::new(3, 4));
}

#[test]
fn new_square_makes_equal_sides() {
    let a = Hitbox::new_square(Vec2::new(0, 0), 65);
    assert_eq!(a.size, Vec2::new(65, 65));
}

#[test]
fn grid_square_floors_per_axis() {
    assert_eq!(get_grid_square(Vec2::new(0, 0)), (0, 0));
    assert_eq!(get_grid_square(Vec2::new(91, 68)), (0, 0));
    assert_eq!(get_grid_square(Vec2::new(92, 69)), (1, 1));
    assert_eq!(get_grid_square(Vec2::new(919, 689)), (9, 9));
    assert_eq!(get_grid_square(Vec2::new(920, 690)), (10, 10));
    assert_eq!(get_grid_square(Vec2::new(459, 300)), (4, 4));
}

#[test]
fn grid_square_at_integer_extremes() {
    assert_eq!(get_grid_square(Vec2::new(i32::MAX, 0)), (23342213, 0));
    assert_eq!(get_grid_square(Vec2::new(i32::MIN, 0)), (-23342214, 0));
}

#[test]
fn overlap_at_large_coordinates() {
    let a = Hitbox::new(Vec2::new(i32::MAX - 10, i32::MAX - 10), Vec2::new(10, 10));
    let b = Hitbox::new(Vec2::new(i32::MAX - 5, i32::MAX - 5), Vec2::new(10, 10));
    assert!(a.collides_with(&b));
    let c = Hitbox::new(Vec2::new(i32::MIN, i32::MIN), Vec2::new(10, 10));
    assert!(!a.collides_with(&c));
}

#[test]
fn grid_square_floors_negative_coordinates() {
    assert_eq!(get_grid_square(Vec2::new(-1, -1)), (-1, -1));
    assert_eq!(get_grid_square(Vec2::new(-92, -69)), (-1, -1));
    assert_eq!(get_grid_square(Vec2::new(-93, -70)), (-2, -2));
    assert_eq!(get_grid_square(Vec2::new(-920, -690)), (-10, -10));
}
