//! One module per source dialect.

pub mod css;
pub mod javascript;
