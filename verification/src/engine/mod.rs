pub mod config;
pub mod report;
pub mod scanner;
pub mod walk;
pub mod size;
pub mod found_once;
pub mod scan_run;
pub mod laws;
