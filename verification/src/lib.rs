//! Verified core of the NeuralBridge MCP server: the wire codec spoken with the
//! Android companion app, selector parsing and element resolution, ADB argument
//! validation and output parsing, and the decision logic of the MCP tools.

pub mod protocol;
pub mod text;
pub mod semantic;
pub mod device;
pub mod server;
