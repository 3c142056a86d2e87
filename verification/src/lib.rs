pub mod text;
pub mod markdown;
pub mod json;
pub mod executor;
pub mod provider;
pub mod records;
pub mod bot;
pub mod cli;
pub mod config;
pub mod prompt;
pub mod context;
pub mod edit;
pub mod tui;
pub mod panes;
pub mod tui_laws;
