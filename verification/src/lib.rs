//! Targeted, repeatable edits to JavaScript modules and CSS stylesheets.
//!
//! A source text is parsed into a tree, one pass reads or edits the tree, and
//! the tree is written back with its comments. The passes are verified: what
//! each does to a tree is stated over the tree's own shape. Parsing, writing
//! and the walk through a tree belong to the parser's crates; the few
//! functions that call them say what is taken on trust.
//!
//! A parsed text is held in a value of its own, `ParsedModule` or
//! `ParsedStylesheet`, that only this library can make and change. So what is
//! written back is always a tree that the parser built, with the edits of the
//! passes in it, and never one put together by hand.
//!
//! - `parsers::javascript` holds the imports, the statistics, the named object
//!   literals and the hooks of a LiveView socket;
//! - `parsers::css` holds the imports of a stylesheet and the placing of its
//!   comments;
//! - `source`, `text` and `formatting` hold what both share.

pub mod formatting;
pub mod parsers;
pub mod source;
pub mod text;
