//! Verified core of a git worktree manager: parsers for git's machine
//! formats, git argv construction, and the selection/state logic of the
//! list and detail views.

pub mod branch_store;
pub mod create_form;
pub mod dialogs;
pub mod bytes;
pub mod engine;
pub mod feedback;
pub mod git;
pub mod history_actions;
pub mod history_store;
pub mod model;
pub mod paths;
pub mod sections;
pub mod shell;
pub mod store;
pub mod terminal;
pub mod text;
pub mod text_input;
pub mod views;
pub mod wc_actions;
pub mod wc_store;
