pub mod admin;
pub mod auth;
pub mod config;
pub mod database;
pub mod fs;
pub mod icons;
pub mod text;
pub mod token_validizer;
pub mod utils;
