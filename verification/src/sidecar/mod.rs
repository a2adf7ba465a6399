pub mod config;
pub mod health;
pub mod proxy;
pub mod state;
