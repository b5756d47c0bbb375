use shooter::hitbox::{Hitbox, Vec2};
use shooter::hitbox_tree::HitboxTree;
use shooter::shooter::{
    bullet_frame_name, clamp_position, collides_opt, is_off_screen, next_weapon_index, BulletType,
    INTERNAL_RESOLUTION_X, INTERNAL_RESOLUTION_Y,
};

#[test]
fn off_screen_test_per_side() {
    let size = Vec2::new(65, 65);
    let w = INTERNAL_RESOLUTION_X;
    let h = INTERNAL_RESOLUTION_Y;
    assert!(!is_off_screen(Vec2::new(0, 0), size, w, h));
    assert!(!is_off_screen(Vec2::new(-65, 0), size, w, h));
    assert!(is_off_screen(Vec2::new(-66, 0), size, w, h));
    assert!(!is_off_screen(Vec2::new(920, 0), size, w, h));
    assert!(is_off_screen(Vec2::new(921, 0), size, w, h));
    assert!(is_off_screen(Vec2::new(0, -66), size, w, h));
    assert!(is_off_screen(Vec2::new(0, 691), size, w, h));
}

#[test]
fn clamp_keeps_object_inside_playfield() {
    let size = Vec2::new(65, 65);
    let w = INTERNAL_RESOLUTION_X;
    let h = INTERNAL_RESOLUTION_Y;
    assert_eq!(clamp_position(Vec2::new(-5, 100), size, w, h), Vec2::new(0, 100));
    assert_eq!(clamp_position(Vec2::new(100, -1), size, w, h), Vec2::new(100, 0));
    assert_eq!(clamp_position(Vec2::new(9999, 9999), size, w, h), Vec2::new(855, 625));
    assert_eq!(clamp_position(Vec2::new(50, 400), size, w, h), Vec2::new(50, 400));
}

#[test]
fn weapon_index_wraps() {
    assert_eq!(next_weapon_index(0, 2), 1);
    assert_eq!(next_weapon_index(1, 2), 0);
    assert_eq!(next_weapon_index(0, 1), 0);
}

#[test]
fn collision_dispatch_needs_both_trees() {
    let a = HitboxTree::new(Hitbox::new(Vec2::new(0, 0), Vec2::new(30, 30)));
    let b = HitboxTree::new(Hitbox::new(Vec2::new(10, 10), Vec2::new(30, 30)));
    assert!(collides_opt(Some(&a), Some(&b)));
    assert!(!collides_opt(Some(&a), None));
    assert!(!collides_opt(None, Some(&b)));
    assert!(!collides_opt(None, None));
}

#[test]
fn bullet_frames_by_kind() {
    assert_eq!(bullet_frame_name(&BulletType::Minigun), "Minigun_Small");
    assert_eq!(bullet_frame_name(&BulletType::Laser), "Laser_Small");
    assert_eq!(bullet_frame_name(&BulletType::Proton), "Proton_Medium");
}
