//! Hierarchical hitbox engine for a 2D shoot-em-up, with the integer-valued
//! game state that surrounds it: axis-aligned boxes, per-entity shape trees
//! with a grid broad phase and a dual-frontier narrow phase, weapon leveling,
//! and sprite-animation bookkeeping.

pub mod hitbox;
pub mod hitbox_tree;
pub mod shooter;
pub mod spritesheet;
pub mod weapon;
