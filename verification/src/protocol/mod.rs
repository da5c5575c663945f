//! Wire protocol between the MCP server and the companion app.

pub mod buffer;
pub mod codec;
pub mod connection;
pub mod pb;
