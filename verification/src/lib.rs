//! A converter from a small Markdown dialect to HTML.
//!
//! The document is read by a cursor over its characters; one pass both
//! recognises the blocks (headings, bullet lists, fenced code, intro blocks,
//! paragraphs) and writes their HTML. Every executable function carries a
//! contract over the plain sequence of characters and a position in it.

pub mod block;
pub mod document;
pub mod inline;
pub mod intro;
pub mod laws;
pub mod list;
pub mod marker;
pub mod paragraph;
pub mod text;
pub mod walker;

pub use crate::document::{parse_document, BlockKind};
pub use crate::walker::SourceWalker;
