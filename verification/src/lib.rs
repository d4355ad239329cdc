//! Combat core of a small action RPG: health, damage and healing over time,
//! timed casts, ground targeting, spell resolution and projectile hits.
//!
//! Time is measured in whole nanoseconds and space in thousandths of a world
//! unit, so that every rule is stated and proved over integers.

pub mod geometry;
pub mod timer;
pub mod health;
pub mod damage;
pub mod damage_text;
pub mod auras;
pub mod lifetime;
pub mod projectile;
pub mod combatant;
pub mod spells;
pub mod aoe;
pub mod controls;
