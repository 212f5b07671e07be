//! Marked regions in the documents of a book.
//!
//! A document may carry one marker comment, such as
//! `<!-- collect {"x": 1} -->` or `<!-- tags: go; rust -->`. The collector
//! parses the literal of the first such marker as JSON, YAML or TOML and
//! gathers the payloads of a corpus under the documents' paths; the tagger
//! cuts the literal into tags and keeps an index from tags to documents and
//! back. Both remove the marker from the document's text. A third part
//! prepares the assets of a table of contents.
//!
//! Nothing here reads or writes a file: a run hands back the texts to be
//! written.

pub mod collector;
pub mod document;
pub mod error;
pub mod marker;
pub mod nesting;
pub mod payload;
pub mod settings;
pub mod tag_index;
pub mod tagger;
pub mod tags;
pub mod text;
pub mod tocjs;
