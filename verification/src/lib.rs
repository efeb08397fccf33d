pub mod args;
pub mod cli;
pub mod config;
pub mod formaters;
pub mod parser;
pub mod sorting;
pub mod text;
pub mod timings;
pub mod ui;
pub mod utils;
