pub mod docker;
pub mod ports;
pub mod registry;
pub mod ssh;
pub mod system;
