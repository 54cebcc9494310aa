//! The verified core of `catch`, a companion service for Hurl test suites.
pub mod text;
pub mod keyed;
pub mod json;
pub mod runtime;
pub mod script;
pub mod config;
pub mod stamp;
pub mod proxy;
pub mod kv_store;
pub mod file_store;
pub mod order;
pub mod view;
