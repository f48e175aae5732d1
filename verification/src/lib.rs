pub mod text;
pub mod provider;
pub mod matching;
pub mod bookmarks;
pub mod commands;
pub mod projects;
pub mod snippets;
pub mod todos;
pub mod providers;
pub mod config;
pub mod color;
pub mod wide;
pub mod launcher;
