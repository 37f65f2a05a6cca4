pub mod app;
pub mod codex_parser;
pub mod events;
pub mod json;
pub mod parser;
pub mod run;
pub mod streaming;
pub mod text;
pub mod ui;
pub mod watcher;
