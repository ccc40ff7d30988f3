//! Queries and edits on CSS stylesheets.

pub mod ast;
pub mod formatter;
pub mod helpers;
pub mod nodes;
