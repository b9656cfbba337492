//! A small static-site generator library.
//!
//! Content files (`.yasg`) hold a metadata block of `key: value` lines,
//! a `---` delimiter line, and a body. Pages carry Markdown bodies; templates
//! carry mustache-style substitution patterns. The library parses and
//! validates content files, renders page bodies to HTML, substitutes them
//! into the template matching the page's class, and plans the resulting
//! output writes and plain-file copies. All file-system work is left to the
//! caller, which feeds file text in and carries the planned actions out.

pub mod builder;
pub mod config;
pub mod error;
pub mod meta;
pub mod paths;
pub mod render;
pub mod strops;
pub mod text;
pub mod yasg;
