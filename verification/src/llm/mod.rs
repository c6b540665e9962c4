//! Talking to a language model service.

pub mod config;
pub mod error;
pub mod providers;
