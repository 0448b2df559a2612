//! Converts text written in a small bracket-tag markup into HTML pages.
//!
//! The markup is read in one pass by a stack-based state machine
//! ([`parser::parse`]); [`page::gen_page`] pulls an optional title line out of
//! a document and wraps the parsed body in an HTML page.
pub mod text;
pub mod tag;
pub mod parser;
pub mod page;
pub mod laws;
