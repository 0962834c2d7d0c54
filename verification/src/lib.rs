//! Item attribute aggregation and stacking engine.
//!
//! The crate models an item system for a 2D game: items carry per-kind lists
//! of prioritised numeric modifiers, folded deterministically into effective
//! stats; item stacks live in slot-indexed collections with air-filler
//! semantics; composite template items merge the attributes of their named
//! components and composite their textures from masked raster layers.

pub mod attribute;
pub mod collection;
pub mod item;
pub mod prelude_items;
pub mod raster;
pub mod registry;
pub mod scalar;
pub mod stats;
pub mod template;
pub mod text;
