pub mod manager;
pub mod models;
pub mod parser;
pub mod session;
