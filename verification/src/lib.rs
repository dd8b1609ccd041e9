//! Game logic of a small factory-building game: inventories, building costs
//! and production steps, research upgrades, menu decisions, key bindings,
//! the tile map, resource generation and the chunk index.

pub mod buildings;
pub mod chunks;
mod collections;
pub mod controls;
pub mod inventory;
pub mod map;
pub mod menus;
pub mod player;
mod random;
pub mod unlocks;
pub mod world;
pub mod worldgen;
