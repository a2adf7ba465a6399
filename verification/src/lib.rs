pub mod clock;
pub mod hub;
pub mod inspector;
pub mod sidecar;
pub mod text;
pub mod textmap;
