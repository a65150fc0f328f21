pub mod cache;
pub mod plugin;
pub mod project;
pub mod scan;
