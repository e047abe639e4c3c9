//! Patient registration records kept in an append-only CSV log.

pub mod decimal;
pub mod intake;
pub mod line;
pub mod menu;
pub mod patient;
pub mod rows;
pub mod store;
pub mod text;
