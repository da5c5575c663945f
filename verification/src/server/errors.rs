//! Classification of internal errors into MCP errors with troubleshooting
//! guidance.

use vstd::prelude::*;
use crate::text::{chars_of, contains, contains_str, lowercase, push_str, string_from_chars, to_lowercase_exec};

verus! {

/// MCP error codes the server reports.
#[derive(Debug, Clone, Copy, PartialEq, Eq, Structural)]
pub enum McpErrorCode {
    /// JSON-RPC internal error (-32603).
    InternalError,
    /// JSON-RPC invalid params (-32602).
    InvalidParams,
}

/// An MCP error: code and message.
#[derive(Debug)]
pub struct McpErrorInfo {
    pub code: McpErrorCode,
    pub message: String,
}

/// The classes of errors, checked in this order.
#[derive(Debug, Clone, Copy, PartialEq, Eq, Structural)]
pub enum ErrorClass {
    Connection,
    Permission,
    DeviceState,
    Adb,
    NoDeviceSelected,
    PortForwarding,
    Generic,
}

/// Which class an error message falls in, judged on its lower-cased text.
pub open spec fn error_class(message: Seq<char>) -> ErrorClass {
    let m = lowercase(message);
    if contains(m, "connection refused"@) || contains(m, "connection timeout"@) || contains(
        m,
        "connection reset"@,
    ) || contains(m, "no route to host"@) {
        ErrorClass::Connection
    } else if contains(m, "permission denied"@) || contains(m, "unauthorized"@) {
        ErrorClass::Permission
    } else if contains(m, "device offline"@) || contains(m, "device not responding"@) {
        ErrorClass::DeviceState
    } else if contains(m, "adb"@) || contains(m, "device not found"@) {
        ErrorClass::Adb
    } else if contains(m, "no device selected"@) {
        ErrorClass::NoDeviceSelected
    } else if contains(m, "port forwarding"@) {
        ErrorClass::PortForwarding
    } else {
        ErrorClass::Generic
    }
}

/// Text put before the error's own message, per class.
pub open spec fn class_prefix(c: ErrorClass) -> Seq<char> {
    match c {
        ErrorClass::Connection => "Failed to connect to companion app: "@,
        ErrorClass::Permission => "Permission denied: "@,
        ErrorClass::DeviceState => "Device is offline or not responding: "@,
        ErrorClass::Adb => "ADB operation failed: "@,
        ErrorClass::PortForwarding => "Port forwarding setup failed: "@,
        _ => Seq::empty(),
    }
}

/// Guidance put after the error's own message, per class.
pub open spec fn class_suffix(c: ErrorClass) -> Seq<char> {
    match c {
        ErrorClass::Connection => CONNECTION_HELP@,
        ErrorClass::Permission => PERMISSION_HELP@,
        ErrorClass::DeviceState => DEVICE_STATE_HELP@,
        ErrorClass::Adb => ADB_HELP@,
        ErrorClass::NoDeviceSelected => NO_DEVICE_HELP@,
        ErrorClass::PortForwarding => PORT_FORWARDING_HELP@,
        ErrorClass::Generic => Seq::empty(),
    }
}

/// Troubleshooting for connection errors.
pub const CONNECTION_HELP: &'static str = "\n\nTroubleshooting checklist:\n1. Check companion app is installed and running\n2. Verify AccessibilityService is enabled in Settings\n3. Run: adb forward tcp:38472 tcp:38472\n4. Check logcat: adb logcat -s NeuralBridge:V";

/// Troubleshooting for permission errors.
pub const PERMISSION_HELP: &'static str = "\n\nTroubleshooting checklist:\n1. Accept authorization prompt on device screen\n2. Check USB debugging is enabled\n3. Run: adb devices (device should show 'device', not 'unauthorized')\n4. Try: adb kill-server && adb start-server";

/// Troubleshooting for offline devices.
pub const DEVICE_STATE_HELP: &'static str = "\n\nTroubleshooting checklist:\n1. Check device is powered on and unlocked\n2. Check USB cable connection\n3. Run: adb devices\n4. Try: adb reconnect";

/// Troubleshooting for ADB errors.
pub const ADB_HELP: &'static str = "\n\nTroubleshooting checklist:\n1. Run: adb devices\n2. Check device is connected and authorized\n3. Verify ADB is in PATH\n4. Try: adb kill-server && adb start-server";

/// Guidance when no device is selected.
pub const NO_DEVICE_HELP: &'static str = "\n\nPlease specify a device:\n- Use --device <id> flag\n- Or use --auto-discover to auto-select first device";

/// Troubleshooting for port forwarding errors.
pub const PORT_FORWARDING_HELP: &'static str = "\n\nTroubleshooting checklist:\n1. Check device is online: adb devices\n2. Manually test: adb forward tcp:38472 tcp:38472\n3. Check for port conflicts: netstat -an | grep 38472\n4. Try: adb forward --remove-all";

/// The code for each class: invalid params when no device is selected,
/// internal error otherwise.
pub open spec fn class_code(c: ErrorClass) -> McpErrorCode {
    if c == ErrorClass::NoDeviceSelected {
        McpErrorCode::InvalidParams
    } else {
        McpErrorCode::InternalError
    }
}

/// Classify an error message (see `error_class`).
pub fn classify(message: &str) -> (c: ErrorClass)
    ensures
        c == error_class(message@),
{
    let m = to_lowercase_exec(message);
    let m = m.as_slice();
    if contains_str(m, "connection refused") || contains_str(m, "connection timeout") || contains_str(
        m,
        "connection reset",
    ) || contains_str(m, "no route to host") {
        ErrorClass::Connection
    } else if contains_str(m, "permission denied") || contains_str(m, "unauthorized") {
        ErrorClass::Permission
    } else if contains_str(m, "device offline") || contains_str(m, "device not responding") {
        ErrorClass::DeviceState
    } else if contains_str(m, "adb") || contains_str(m, "device not found") {
        ErrorClass::Adb
    } else if contains_str(m, "no device selected") {
        ErrorClass::NoDeviceSelected
    } else if contains_str(m, "port forwarding") {
        ErrorClass::PortForwarding
    } else {
        ErrorClass::Generic
    }
}

/// Convert an error message into an MCP error with guidance for its class:
/// the class prefix, the message, then the class's troubleshooting text.
pub fn to_mcp_error(message: &str) -> (r: McpErrorInfo)
    ensures
        r.code == class_code(error_class(message@)),
        r.message@ == class_prefix(error_class(message@)) + message@ + class_suffix(error_class(message@)),
{
    let class = classify(message);
    let mut out: Vec<char> = Vec::new();
    let (prefix, suffix): (&str, &str) = match class {
        ErrorClass::Connection => ("Failed to connect to companion app: ", CONNECTION_HELP),
        ErrorClass::Permission => ("Permission denied: ", PERMISSION_HELP),
        ErrorClass::DeviceState => ("Device is offline or not responding: ", DEVICE_STATE_HELP),
        ErrorClass::Adb => ("ADB operation failed: ", ADB_HELP),
        ErrorClass::NoDeviceSelected => ("", NO_DEVICE_HELP),
        ErrorClass::PortForwarding => ("Port forwarding setup failed: ", PORT_FORWARDING_HELP),
        ErrorClass::Generic => ("", ""),
    };
    proof {
        reveal_strlit("");
    }
    push_str(&mut out, prefix);
    push_str(&mut out, message);
    push_str(&mut out, suffix);
    let code = if class == ErrorClass::NoDeviceSelected {
        McpErrorCode::InvalidParams
    } else {
        McpErrorCode::InternalError
    };
    McpErrorInfo { code, message: string_from_chars(out.as_slice()) }
}

} // verus!
