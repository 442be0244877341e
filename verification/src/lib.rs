//! Turns a stream of markup tokens into a flat sequence of layout elements.
//!
//! The work is done in two stages. [`interpreter::hir::Hir`] builds an arena of
//! nodes from tag-open, tag-close and text events, and
//! [`interpreter::ast::Ast`] walks that arena and emits text boxes, spacers and
//! tables. Every function carries a contract stated over the mathematical view
//! of its data, and the contracts are proved.

pub mod anchor;
pub mod chars;
pub mod color;
pub mod element;
pub mod interpreter;
pub mod text;
