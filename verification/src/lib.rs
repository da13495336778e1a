//! The logic of a semantic router for MCP servers, with its behaviour stated and proved.

pub mod config;
pub mod events;
pub mod json;
pub mod laws;
pub mod message;
pub mod promises;
pub mod ranking;
pub mod registry;
pub mod router;
pub mod semantic;
pub mod storage;
pub mod text;
pub mod transport;
