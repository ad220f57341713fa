pub mod command_knowledge;
pub mod paths;
pub mod text;
pub mod models;
pub mod terminal;
pub mod disk_cleanup;
pub mod startup;
pub mod commands;
pub mod providers;
