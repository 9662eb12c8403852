//! The board of tasks: its columns, its cards, and what the pointer does to them.

pub mod filter;
pub mod gesture;
pub mod cards;
pub mod column;
pub mod columns;
pub mod day_lines;
pub mod actions;
pub mod attach;
pub mod work_on_marked;
pub mod resources;
pub mod selection;
pub mod start;
pub mod tags;
