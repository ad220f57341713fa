pub mod indexer;
pub mod models;
pub mod ranking;
pub mod scanner;
pub mod service;
