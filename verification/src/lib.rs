//! Extraction of frontmatter metadata from text documents.
//!
//! A frontmatter block is delimited by lines that consist exactly of `---`.
//! The library locates the first such block in a document, parses its body as
//! a YAML mapping, pairs the resulting metadata with the document's path, and
//! renders the results as pretty-printed JSON objects.
//!
//! - [`text`]: texts as character sequences, split into and joined from lines;
//! - [`block`]: locating the frontmatter block between delimiter lines;
//! - [`yaml`]: parsing a block body and reading its top-level entries;
//! - [`record`]: the extraction result, one record per document;
//! - [`emit`]: rendering records as JSON and framing the output stream;
//! - [`usage`]: the rules that admit or refuse a run.

pub mod block;
pub mod emit;
pub mod record;
pub mod text;
pub mod usage;
pub mod yaml;
