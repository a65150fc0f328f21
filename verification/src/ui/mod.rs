pub mod rows;
pub mod app;
pub mod laws;
pub mod removal;
pub mod deleting;
pub mod keys;
pub mod detail;
pub mod screen;
pub mod panes;
pub mod popups;
pub mod roots;
