//! Decision logic of a community enrollment bot: the confirmation message
//! format, its parser, message routing and the record store.

pub mod backend;
pub mod commands;
pub mod config;
pub mod confirmation;
pub mod pattern;
pub mod router;
pub mod text;
