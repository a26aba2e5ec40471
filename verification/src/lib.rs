//! Core logic of a terminal user interface for git: the status model,
//! the merge of git status reports into that model, key bindings, job
//! scheduling for background git operations, and what the screen shows.

pub mod app;
pub mod git;
pub mod gitui;
pub mod input_config;
pub mod path_order;
pub mod repo_state;
pub mod state;
pub mod status;
pub mod text;
pub mod ui;
pub mod worker;
