//! What the MCP tools answer: the Markdown texts they return.

pub mod render;
pub mod tools;
