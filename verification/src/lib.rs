//! Core logic of a Garry's Mod workshop tool: background loading, ignore
//! patterns, Steam bootstrap decisions, callback bookkeeping, addon packing
//! decisions and upload job state.

pub mod tabs;
pub mod text;
pub mod async_load;
pub mod ignores;
pub mod steam;
