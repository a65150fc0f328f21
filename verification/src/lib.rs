//! Scrub: finds rebuildable developer caches and build artifacts and decides
//! what may be reclaimed.
pub mod cli;
pub mod commands;
pub mod engine;
pub mod models;
pub mod plugins;
pub mod ui;
pub mod utils;
