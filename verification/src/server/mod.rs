//! The HTTP/MCP front: path sandboxing, rate limiting, MCP dispatch rules,
//! tool rules, plugin uploads, API errors and the shapes the API returns.
pub mod api;
pub mod assets;
pub mod feed;
pub mod mcp;
pub mod plugins;
pub mod proxy;
pub mod rate_limit;
pub mod sandbox;
pub mod tools;
