//! The commands that members can invoke.

pub mod enrollment;
