//! The logic of a board of tasks and the panes beside it: what the board shows and where a
//! card lands, what the keyboard fires, which line of a search is a definition, when a blame
//! or a diagnostic is asked for again, and what the commit pane does next.

pub mod bindings;
pub mod blame;
pub mod board;
pub mod code_actions;
pub mod commit_pane;
pub mod definition;
pub mod definition_ranking;
pub mod diagnostics;
pub mod extension_pane;
pub mod file_pane;
pub mod hunks;
pub mod input;
pub mod model;
pub mod paths;
pub mod polling;
pub mod text;
pub mod window;
