//! A startup-time preset settings compiler for a game-configuration service.
//!
//! Given an ordered sequence of named difficulty presets and two closed
//! catalogs (capability identifiers, and notable strategies keyed by a
//! composite room/strategy identifier), the compiler computes for every
//! preset the cumulative settings unlocked by that preset and all presets
//! before it, and checks that the presets form a complete, non-overlapping
//! covering of both catalogs.

pub mod compile;
pub mod conds;
pub mod defaults;
pub mod laws;
pub mod model;
mod sets;
mod util;

pub use compile::{compile, CompileError};
pub use defaults::{get_ignored_tech, get_implicit_tech};
pub use model::{CompiledPreset, NotableSetting, NotableStrategy, Preset};
