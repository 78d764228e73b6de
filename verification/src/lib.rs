pub mod cli;
pub mod clock;
pub mod command;
pub mod config;
pub mod console;
pub mod days;
pub mod decimal;
pub mod dispatch;
pub mod hermes;
pub mod interval;
pub mod kinds;
pub mod listing;
pub mod loader;
pub mod output;
pub mod parse;
pub mod registry;
pub mod runner;
pub mod settings;
pub mod sort;
pub mod stamp;
pub mod status;
pub mod table;
pub mod text;
pub mod timer;
