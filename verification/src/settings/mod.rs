//! Application settings.

pub mod database;
pub mod models;
