//! Small data structures shared by the rest of the crate.

pub mod dedup_list;
pub mod text;
