//! A line-oriented Markdown recognizer and HTML emitter: each input line
//! is classified against an ordered rule cascade and yields exactly one
//! output line, with fenced code blocks, tables, nested lists and
//! collected link-reference definitions threaded across lines.

pub mod emitter;
pub mod inline;
pub mod laws;
pub mod lists;
pub mod refs;
pub mod table;
pub mod tags;
pub mod text;
