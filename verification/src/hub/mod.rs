//! The engine and the catalog backends it is used with.

pub mod apple_music;
pub mod engine;
pub mod spotify;
