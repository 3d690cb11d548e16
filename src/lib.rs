//! Balancing of potion attributes across the content files of a game.
//!
//! Potions are merged over the load order (later files override earlier ones),
//! classified by the suffix of their identifier and by their single magic
//! effect, and rewritten from a balance table.
pub mod effects;
pub mod number;
pub mod decimal;
pub mod table;
pub mod rows;
pub mod layout;
pub mod potion;
pub mod classify;
pub mod engine;
pub mod merge;
pub mod scan;
pub mod order;
pub mod output;

pub use effects::{effect_kind, effect_shape, EffectKind, EffectShape, EFFECT_COUNT};
