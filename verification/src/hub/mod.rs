pub mod auth;
pub mod config;
pub mod definition;
pub mod error;
pub mod manifest;
pub mod orchestrator;
pub mod pod;
pub mod proxy;
