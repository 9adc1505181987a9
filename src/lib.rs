//! A small HTTP service's logic: the startup check of the environment, the
//! bodies of its two handlers, and the conditions that stop it.
pub mod config;
pub mod fatal;
pub mod payload;
pub mod render;
pub mod response;
