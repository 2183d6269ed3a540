//! What the request handlers decide without asking the database.

pub mod audit;
pub mod items;
