//! What the bot keeps: enrollment records and the store that holds them.

pub mod database_storage;
