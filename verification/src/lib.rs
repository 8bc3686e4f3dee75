pub mod app;
pub mod config;
pub mod download;
pub mod json;
pub mod prompt;
pub mod ui;
