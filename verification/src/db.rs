//! What the engine knows of the persistent store: the shape of a stored
//! reminder and the place of the database file.

pub mod config;
pub mod models;
