//! Core library of the bulletd journal: the data model, the Markdown file
//! format (parser and serializer), the operations on daily logs, and the
//! decisions of its terminal interface and MCP server.

pub mod text;
pub mod date;
pub mod error;
pub mod model;
pub mod config;
pub mod id;
pub mod format;
pub mod parser;
pub mod serializer;
pub mod round_trip;
pub mod ops;
pub mod laws;
pub mod work_day;
pub mod tui;
pub mod mcp;
pub mod screen;
pub mod layout;
