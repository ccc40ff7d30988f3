//! Queries and edits on JavaScript modules.

pub mod ast;
pub mod ast_ex;
pub mod declarators;
pub mod entries;
pub mod formatter;
pub mod helpers;
pub mod names;
pub mod nodes;
pub mod phoenix;
