pub mod clipboard;
pub mod bookmark;
pub mod snippet;
pub mod project;
pub mod command;
pub mod config_file;
pub mod websearch;
pub mod llm;
pub mod window;
pub mod todo;
pub mod app_launcher;
pub mod app_list;
