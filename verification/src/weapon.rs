//! Player weapons and their leveling rules.
//!
//! A weapon is one of two guns. Each keeps a level, a fire rate (ticks the
//! player must wait between shots, so smaller is faster) and a pattern width
//! (how far the spread of bullets per shot has grown). Leveling up raises
//! the level by one, widens the pattern every fourth level starting at level
//! two, and speeds up firing every second level, each against a hard cap.
//! The geometry of the fired bullets themselves (offsets, velocities,
//! damage) lives with the entity layer, outside this crate's scope.

use vstd::prelude::*;

verus! {

pub const MACHINEGUN_DEFAULT_FIRERATE: u32 = 11;

/// Fastest fire rate a machine gun can reach (a lower bound on `fire_rate`).
pub const MACHINEGUN_MAX_FIRERATE: u32 = 6;

pub const MACHINEGUN_DEFAULT_WIDTH: u32 = 0;

pub const MACHINEGUN_MAX_WIDTH: u32 = 3;

pub const WIDEGUN_DEFAULT_FIRERATE: u32 = 14;

/// Fastest fire rate a wide gun can reach (a lower bound on `fire_rate`).
pub const WIDEGUN_MAX_FIRERATE: u32 = 10;

pub const WIDEGUN_DEFAULT_WIDTH: u32 = 1;

pub const WIDEGUN_MAX_WIDTH: u32 = 5;

#[derive(Clone, Copy, Debug, PartialEq, Eq, Structural)]
pub struct MachineGun {
    pub level: u32,
    pub fire_rate: u32,
    pub pattern_width: u32,
}

#[derive(Clone, Copy, Debug, PartialEq, Eq, Structural)]
pub struct WideGun {
    pub level: u32,
    pub fire_rate: u32,
    pub num_bullets: u32,
}

/// The value of a machine gun after one level-up: the pattern widens every
/// fourth level starting at level two (capped), and the fire rate drops by
/// one every second level (floored).
pub open spec fn mg_leveled_up(g: MachineGun) -> MachineGun {
    let level = ((g.level + 1) as u32);
    let width = if level > 1 && (level - 2) % 4 == 0 {
        if g.pattern_width + 1 <= MACHINEGUN_MAX_WIDTH {
            ((g.pattern_width + 1) as u32)
        } else {
            MACHINEGUN_MAX_WIDTH
        }
    } else {
        g.pattern_width
    };
    let rate = if level % 2 == 0 {
        if g.fire_rate - 1 >= MACHINEGUN_MAX_FIRERATE {
            ((g.fire_rate - 1) as u32)
        } else {
            MACHINEGUN_MAX_FIRERATE
        }
    } else {
        g.fire_rate
    };
    MachineGun { level, fire_rate: rate, pattern_width: width }
}

/// The value of a wide gun after one level-up, under the same scheme with
/// the wide gun's own caps.
pub open spec fn wg_leveled_up(g: WideGun) -> WideGun {
    let level = ((g.level + 1) as u32);
    let bullets = if level > 1 && (level - 2) % 4 == 0 {
        if g.num_bullets + 1 <= WIDEGUN_MAX_WIDTH {
            ((g.num_bullets + 1) as u32)
        } else {
            WIDEGUN_MAX_WIDTH
        }
    } else {
        g.num_bullets
    };
    let rate = if level % 2 == 0 {
        if g.fire_rate - 1 >= WIDEGUN_MAX_FIRERATE {
            ((g.fire_rate - 1) as u32)
        } else {
            WIDEGUN_MAX_FIRERATE
        }
    } else {
        g.fire_rate
    };
    WideGun { level, fire_rate: rate, num_bullets: bullets }
}

impl MachineGun {
    /// The fire rate never drops below its cap and the width never exceeds
    /// its cap; the starting values satisfy this and leveling preserves it.
    pub open spec fn wf(&self) -> bool {
        &&& self.fire_rate >= MACHINEGUN_MAX_FIRERATE
        &&& self.pattern_width <= MACHINEGUN_MAX_WIDTH
    }

    pub fn new() -> (g: MachineGun)
        ensures
            g.wf(),
            g.level == 0,
            g.fire_rate == MACHINEGUN_DEFAULT_FIRERATE,
            g.pattern_width == MACHINEGUN_DEFAULT_WIDTH,
    {
        MachineGun {
            level: 0,
            fire_rate: MACHINEGUN_DEFAULT_FIRERATE,
            pattern_width: MACHINEGUN_DEFAULT_WIDTH,
        }
    }

    pub fn level_up(&mut self)
        requires
            old(self).wf(),
            old(self).level < u32::MAX,
        ensures
            final(self).wf(),
            *final(self) == mg_leveled_up(*old(self)),
    {
        self.level = self.level + 1;
        // The spread only grows every fourth level, starting at level two.
        if self.level > 1 && (self.level - 2) % 4 == 0 {
            let w = self.pattern_width + 1;
            self.pattern_width = if w <= MACHINEGUN_MAX_WIDTH {
                w
            } else {
                MACHINEGUN_MAX_WIDTH
            };
        }
        if self.level % 2 == 0 {
            let r = self.fire_rate - 1;
            self.fire_rate = if r >= MACHINEGUN_MAX_FIRERATE {
                r
            } else {
                MACHINEGUN_MAX_FIRERATE
            };
        }
    }
}

impl WideGun {
    /// Same shape of invariant as the machine gun, with this gun's caps.
    pub open spec fn wf(&self) -> bool {
        &&& self.fire_rate >= WIDEGUN_MAX_FIRERATE
        &&& self.num_bullets <= WIDEGUN_MAX_WIDTH
    }

    pub fn new() -> (g: WideGun)
        ensures
            g.wf(),
            g.level == 0,
            g.fire_rate == WIDEGUN_DEFAULT_FIRERATE,
            g.num_bullets == WIDEGUN_DEFAULT_WIDTH,
    {
        WideGun { level: 0, fire_rate: WIDEGUN_DEFAULT_FIRERATE, num_bullets: WIDEGUN_DEFAULT_WIDTH }
    }

    pub fn level_up(&mut self)
        requires
            old(self).wf(),
            old(self).level < u32::MAX,
        ensures
            final(self).wf(),
            *final(self) == wg_leveled_up(*old(self)),
    {
        self.level = self.level + 1;
        // The spread only grows every fourth level, starting at level two.
        if self.level > 1 && (self.level - 2) % 4 == 0 {
            let b = self.num_bullets + 1;
            self.num_bullets = if b <= WIDEGUN_MAX_WIDTH {
                b
            } else {
                WIDEGUN_MAX_WIDTH
            };
        }
        if self.level % 2 == 0 {
            let r = self.fire_rate - 1;
            self.fire_rate = if r >= WIDEGUN_MAX_FIRERATE {
                r
            } else {
                WIDEGUN_MAX_FIRERATE
            };
        }
    }
}

#[derive(Clone, Copy, Debug, PartialEq, Eq, Structural)]
pub enum Weapon {
    MachineGun(MachineGun),
    WideGun(WideGun),
}

/// The value of any weapon after one level-up.
pub open spec fn weapon_leveled_up(w: Weapon) -> Weapon {
    match w {
        Weapon::MachineGun(g) => Weapon::MachineGun(mg_leveled_up(g)),
        Weapon::WideGun(g) => Weapon::WideGun(wg_leveled_up(g)),
    }
}

impl Weapon {
    pub open spec fn wf(&self) -> bool {
        match self {
            Weapon::MachineGun(g) => g.wf(),
            Weapon::WideGun(g) => g.wf(),
        }
    }

    pub open spec fn spec_fire_rate(&self) -> u32 {
        match self {
            Weapon::MachineGun(g) => g.fire_rate,
            Weapon::WideGun(g) => g.fire_rate,
        }
    }

    pub open spec fn spec_level(&self) -> u32 {
        match self {
            Weapon::MachineGun(g) => g.level,
            Weapon::WideGun(g) => g.level,
        }
    }

    /// Ticks the player must wait after a shot before firing again.
    pub fn get_fire_rate(&self) -> (r: u32)
        ensures
            r == self.spec_fire_rate(),
    {
        match self {
            Weapon::MachineGun(g) => g.fire_rate,
            Weapon::WideGun(g) => g.fire_rate,
        }
    }

    pub fn get_level(&self) -> (r: u32)
        ensures
            r == self.spec_level(),
    {
        match self {
            Weapon::MachineGun(g) => g.level,
            Weapon::WideGun(g) => g.level,
        }
    }

    pub fn level_up(&mut self)
        requires
            old(self).wf(),
            old(self).spec_level() < u32::MAX,
        ensures
            final(self).wf(),
            *final(self) == weapon_leveled_up(*old(self)),
    {
        match self {
            Weapon::MachineGun(g) => g.level_up(),
            Weapon::WideGun(g) => g.level_up(),
        }
    }
}

} // verus!
