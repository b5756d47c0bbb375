use shooter::weapon::{MachineGun, Weapon, WideGun};

#[test]
fn machinegun_new_defaults() {
    let g = MachineGun::new();
    assert_eq!(g.level, 0);
    assert_eq!(g.fire_rate, 11);
    assert_eq!(g.pattern_width, 0);
}

#[test]
fn machinegun_leveling_schedule() {
    let mut g = MachineGun::new();
    g.level_up();
    assert_eq!((g.level, g.fire_rate, g.pattern_width), (1, 11, 0));
    g.level_up();
    // Level two: first spread increase, and an even level speeds up firing.
    assert_eq!((g.level, g.fire_rate, g.pattern_width), (2, 10, 1));
    g.level_up();
    assert_eq!((g.level, g.fire_rate, g.pattern_width), (3, 10, 1));
    g.level_up();
    assert_eq!((g.level, g.fire_rate, g.pattern_width), (4, 9, 1));
    g.level_up();
    g.level_up();
    // Level six: the next spread increase, four levels after the first.
    assert_eq!((g.level, g.fire_rate, g.pattern_width), (6, 8, 2));
}

#[test]
fn machinegun_caps() {
    let mut g = MachineGun::new();
    for _ in 0..40 {
        g.level_up();
    }
    // The fire rate never drops below its cap and the spread never grows
    // past its cap.
    assert_eq!(g.fire_rate, 6);
    assert_eq!(g.pattern_width, 3);
}

#[test]
fn widegun_new_defaults() {
    let g = WideGun::new();
    assert_eq!(g.level, 0);
    assert_eq!(g.fire_rate, 14);
    assert_eq!(g.num_bullets, 1);
}

#[test]
fn widegun_leveling_schedule() {
    let mut g = WideGun::new();
    g.level_up();
    assert_eq!((g.level, g.fire_rate, g.num_bullets), (1, 14, 1));
    g.level_up();
    assert_eq!((g.level, g.fire_rate, g.num_bullets), (2, 13, 2));
    g.level_up();
    g.level_up();
    assert_eq!((g.level, g.fire_rate, g.num_bullets), (4, 12, 2));
}

#[test]
fn widegun_caps() {
    let mut g = WideGun::new();
    for _ in 0..40 {
        g.level_up();
    }
    assert_eq!(g.fire_rate, 10);
    assert_eq!(g.num_bullets, 5);
}

#[test]
fn weapon_dispatch() {
    let mut w = Weapon::WideGun(WideGun::new());
    assert_eq!(w.get_level(), 0);
    assert_eq!(w.get_fire_rate(), 14);
    w.level_up();
    w.level_up();
    assert_eq!(w.get_level(), 2);
    assert_eq!(w.get_fire_rate(), 13);
    let mut m = Weapon::MachineGun(MachineGun::new());
    m.level_up();
    m.level_up();
    assert_eq!(m.get_level(), 2);
    assert_eq!(m.get_fire_rate(), 10);
}
