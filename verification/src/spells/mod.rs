//! Spells: how a cast begins, how a timed cast runs, and what a spell does
//! when it fires.

pub mod casting;
pub mod model;
pub mod plugin;
pub mod spell_system;

pub use casting::{casting_system, Casting};
pub use model::{CastSpellFire, CastSpellInit, CastTime};
pub use plugin::SpellsPlugin;
pub use spell_system::{spell_init_system, spell_system};
