//! Decisions of the user interface: what it shows and how it answers
//! the user and the core.

pub mod sidebar;
pub mod styling;
pub mod row;
pub mod board;
pub mod forms;
