//! Core logic of the Arnis world generator: ore vein placement over the
//! filled underground, merging of chunk sections for append-mode saves, and
//! the generation settings stored with a world.

pub mod blocks;
pub mod coordinate_system;
pub mod ore_generation;
pub mod rng;
pub mod nbt;
pub mod world_editor;
pub mod world_metadata;
