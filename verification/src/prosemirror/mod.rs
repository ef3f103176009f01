//! Conversion between Docmost's ProseMirror page and comment bodies and
//! Markdown.
//!
//! - [`reader`]: ProseMirror JSON to Markdown (what the read tools show).
//! - [`writer`]: Markdown to ProseMirror JSON (what the write tools send).
//! - [`node`]: the node model both sides speak of.
//! - [`events`]: the Markdown parser's events, as the writer reads them.
//! - [`model`]: what the writer builds from those events, as spec functions.
//! - [`ids`]: the random UUIDs that mention nodes carry.

pub mod events;
pub mod ids;
pub mod model;
pub mod node;
pub mod reader;
pub mod writer;

pub use reader::prosemirror_to_markdown;
pub use writer::markdown_to_prosemirror;
