//! Finds single-line `TODO:` comments in source files of a few languages.

pub mod todo_syntax;
pub mod utils;
