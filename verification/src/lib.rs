pub mod network;
pub mod json;
pub mod json_text;
pub mod keyed;
pub mod text;
pub mod paths;
pub mod urls;
pub mod digest;
pub mod cli;
pub mod config;
pub mod qa;
pub mod mcp;
pub mod mcp_tools;
pub mod server;
