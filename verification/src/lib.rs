//! Content registry and display rules of a tile-based terminal game engine.

pub mod debug;
pub mod display;
pub mod ground;
pub mod identifiers;
pub mod input;
pub mod item;
pub mod map_render;
pub mod mapping;
pub mod module_loading;
pub mod player;
pub mod registry;
pub mod resolve;
pub mod script;
pub mod tick;
pub mod tile;
pub mod ui_render;
