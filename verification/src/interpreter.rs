//! The tag vocabulary, the tree builder and the tree interpreter.

pub mod ast;
pub mod attr;
pub mod attributes;
pub mod compose;
pub mod flow;
pub mod headings;
pub mod hir;
pub mod html;
pub mod laws;
pub mod list;
pub mod model;
pub mod names;
pub mod shape;
pub mod state;
pub mod table;
