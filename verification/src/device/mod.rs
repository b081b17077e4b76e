pub mod brokenithm;
pub mod config;
