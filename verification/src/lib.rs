//! A proxy rotator: proxy lists, configuration overrides and proxy validation.

pub mod text;
pub mod proxy;
pub mod config;
pub mod error;
