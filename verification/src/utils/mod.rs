pub mod age;
pub mod paths;
pub mod sorting;
pub mod text;
