//! Proxies: their textual form, the rotating manager and validation.
pub mod types;
pub mod manager;
pub mod validator;
