//! A brace-delimited, selector-flavoured markup language compiled to HTML.
//!
//! `grammar` states the language as spec functions, `parser` parses source
//! text into a document tree and is proved to follow `grammar`, `html`
//! states and performs the rendering of a tree, and `laws` proves the
//! properties that relate them.
mod chars;
pub mod grammar;
pub mod html;
pub mod laws;
pub mod parser;
pub mod render;
pub mod syntax;

pub use grammar::ErrorKind;
pub use html::to_html;
pub use parser::{parse_document, Document, ParseError};
pub use render::{compile, formatted_or_raw, render_document};
pub use syntax::{Attribute, TextElement};
