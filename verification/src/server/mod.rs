//! The pure parts of the MCP server: tool routing, log compaction and the
//! Markdown reports it answers with.
pub mod router;
pub mod logs;
pub mod markdown;
pub mod sqlite;
pub mod web_search;
pub mod firewall;
pub mod edit;
pub mod tree;
pub mod symbol_search;
pub mod dispatch;
pub mod tools;
