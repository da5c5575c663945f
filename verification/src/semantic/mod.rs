//! Selector parsing and resolution of selectors against a UI tree.

pub mod resolver;
pub mod selector;
