pub mod application;
pub mod config;
pub mod domain;
pub mod errors;
pub mod image;
