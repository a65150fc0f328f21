pub mod scan;
pub mod report_laws;
