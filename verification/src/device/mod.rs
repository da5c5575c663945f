//! Android device handling: ADB commands, device discovery and permissions.

pub mod adb;
pub mod manager;
pub mod pool;
