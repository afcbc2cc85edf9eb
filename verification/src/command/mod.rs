//! What the commands decide and compute.

pub mod add;
pub mod editor;
pub mod export;
pub mod import;
pub mod list;
pub mod matcher;
pub mod prompt;
pub mod query;
pub mod remove;
pub mod search;
pub mod select;
pub mod sync;
pub mod tags;
pub mod util;
