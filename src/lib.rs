pub mod clock;
pub mod frame;
pub mod laws;
pub mod config;
