//! The transfer history.

pub mod database;
pub mod models;
