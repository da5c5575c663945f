//! Decision logic of the MCP tools: error classification, parameter
//! validation and mapping, retries, and the processing of UI trees, logs,
//! events and screenshots into tool results.

pub mod errors;
pub mod tools;
pub mod policy;
pub mod ui;
pub mod catalog;
pub mod devices;
pub mod config;
pub mod events;
pub mod scroll;
pub mod diff;
pub mod logcat;
