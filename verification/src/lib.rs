//! Curated track lists for a mood: the retry engine that turns an approximate
//! text generator and a partial catalog lookup into "up to N unique tracks,
//! within a fixed number of attempts", together with the data it works on.

pub mod models;
pub mod preferences;
pub mod text;
pub mod utils;
pub mod hub;
