//! A literate-programming toolkit: it round-trips between source files and
//! Markdown documents that embed the source in fenced code blocks.
//!
//! Weaving (`weave`) turns a source file into a Markdown document with YAML
//! front matter and one fenced code block, and builds a content index over a
//! woven tree; tangling (`tangle`) extracts the code back out, keyed by the
//! front matter's `output_filename`. Placeholder markers `@{file}` and
//! `@{file:identifier}` are resolved by textual substitution, with a
//! heuristic extractor that locates one named definition inside a Python or
//! Rust source file. The `roundtrip` module proves the laws that tie these
//! passes together.
//!
//! The library works on plain bytes (`Vec<u8>`) and on documents split into
//! lines (`Vec<Vec<u8>>`); reading and writing files is left to the caller.

pub mod cli;
pub mod definition;
pub mod format;
pub mod front_matter;
pub mod html;
pub mod language;
pub mod order;
pub mod placeholder;
pub mod prepare;
pub mod roundtrip;
pub mod tangle;
pub mod text;
pub mod tokens;
pub mod weave;
