use neuralbridge_mcp::protocol::pb::{GlobalAction, KeyCode};
use neuralbridge_mcp::protocol::pb::{EVENT_APP_CRASH, EVENT_NOTIFICATION_POSTED, EVENT_TOAST_SHOWN, EVENT_UI_CHANGE};
use neuralbridge_mcp::server::errors::{to_mcp_error, McpErrorCode};
use neuralbridge_mcp::server::events::{Event, EventRing};
use neuralbridge_mcp::server::tools::{
    event_type_code, map_action_string_to_code, map_key_string_to_code, validate_selector,
    SetClipboardParams,
};

#[test]
fn test_key_code_mapping() {
    let test_cases = vec![
        ("back", KeyCode::Back),
        ("home", KeyCode::Home),
        ("menu", KeyCode::Menu),
        ("enter", KeyCode::Enter),
        ("return", KeyCode::Enter),
        ("delete", KeyCode::Delete),
        ("del", KeyCode::Delete),
        ("backspace", KeyCode::Delete),
        ("tab", KeyCode::Tab),
        ("space", KeyCode::Space),
        ("volume_up", KeyCode::VolumeUp),
        ("volumeup", KeyCode::VolumeUp),
        ("volume_down", KeyCode::VolumeDown),
        ("volumedown", KeyCode::VolumeDown),
        ("power", KeyCode::Power),
    ];
    for (key_str, expected_code) in test_cases {
        let result = map_key_string_to_code(key_str);
        assert!(result.is_ok(), "Failed to map key: {}", key_str);
        assert_eq!(result.unwrap(), expected_code, "Incorrect mapping for key: {}", key_str);
    }
}

#[test]
fn test_key_code_mapping_case_insensitive() {
    assert_eq!(map_key_string_to_code("BACK").unwrap(), map_key_string_to_code("back").unwrap());
    assert_eq!(map_key_string_to_code("Home").unwrap(), map_key_string_to_code("home").unwrap());
}

#[test]
fn test_key_code_mapping_invalid() {
    assert!(map_key_string_to_code("invalid_key").is_err());
    assert!(map_key_string_to_code("").is_err());
    assert!(map_key_string_to_code("xyz").is_err());
}

#[test]
fn test_global_action_mapping() {
    let test_cases = vec![
        ("back", GlobalAction::GlobalBack),
        ("home", GlobalAction::GlobalHome),
        ("recents", GlobalAction::GlobalRecents),
        ("recent", GlobalAction::GlobalRecents),
        ("recent_apps", GlobalAction::GlobalRecents),
        ("notifications", GlobalAction::GlobalNotifications),
        ("notification", GlobalAction::GlobalNotifications),
        ("quick_settings", GlobalAction::GlobalQuickSettings),
        ("quicksettings", GlobalAction::GlobalQuickSettings),
        ("lock_screen", GlobalAction::GlobalLockScreen),
        ("lockscreen", GlobalAction::GlobalLockScreen),
        ("lock", GlobalAction::GlobalLockScreen),
        ("screenshot", GlobalAction::GlobalTakeScreenshot),
        ("take_screenshot", GlobalAction::GlobalTakeScreenshot),
    ];
    for (action_str, expected_code) in test_cases {
        let result = map_action_string_to_code(action_str);
        assert!(result.is_ok(), "Failed to map action: {}", action_str);
        assert_eq!(result.unwrap(), expected_code, "Incorrect mapping for action: {}", action_str);
    }
}

#[test]
fn test_global_action_mapping_case_insensitive() {
    assert_eq!(map_action_string_to_code("BACK").unwrap(), map_action_string_to_code("back").unwrap());
    assert_eq!(
        map_action_string_to_code("Notifications").unwrap(),
        map_action_string_to_code("notifications").unwrap()
    );
}

#[test]
fn test_global_action_mapping_invalid() {
    assert!(map_action_string_to_code("invalid_action").is_err());
    assert!(map_action_string_to_code("").is_err());
    assert!(map_action_string_to_code("xyz").is_err());
}

#[test]
fn test_validate_selector_with_text() {
    let text = Some(&"Login".to_string());
    let result = validate_selector(text, None, None, None, None, None, None, None, None, None);
    assert!(result.is_ok());
}

#[test]
fn test_validate_selector_with_resource_id() {
    let resource_id = Some(&"com.app:id/button".to_string());
    let result = validate_selector(None, resource_id, None, None, None, None, None, None, None, None);
    assert!(result.is_ok());
}

#[test]
fn test_validate_selector_with_content_desc() {
    let content_desc = Some(&"Submit button".to_string());
    let result = validate_selector(None, None, content_desc, None, None, None, None, None, None, None);
    assert!(result.is_ok());
}

#[test]
fn test_validate_selector_with_class_name() {
    let class_name = Some(&"android.widget.Button".to_string());
    let result = validate_selector(None, None, None, class_name, None, None, None, None, None, None);
    assert!(result.is_ok());
}

#[test]
fn test_validate_selector_all_empty() {
    let result = validate_selector(None, None, None, None, None, None, None, None, None, None);
    assert!(result.is_err());
}

#[test]
fn test_validate_selector_empty_strings() {
    let empty_text = Some(&String::new());
    let empty_resource_id = Some(&String::new());
    let result = validate_selector(empty_text, empty_resource_id, None, None, None, None, None, None, None, None);
    assert!(result.is_err());
}

#[test]
fn test_validate_selector_mixed() {
    let text = Some(&"Login".to_string());
    let empty_resource_id = Some(&String::new());
    let result = validate_selector(text, empty_resource_id, None, None, None, None, None, None, None, None);
    assert!(result.is_ok());
}

#[test]
fn test_validate_selector_with_clickable_only() {
    let result = validate_selector(None, None, None, None, Some(true), None, None, None, None, None);
    assert!(result.is_ok());
}

#[test]
fn test_validate_selector_with_scrollable_only() {
    let result = validate_selector(None, None, None, None, None, Some(false), None, None, None, None);
    assert!(result.is_ok());
}

#[test]
fn test_validate_selector_with_multiple_boolean_filters() {
    let result = validate_selector(None, None, None, None, Some(true), Some(false), None, None, None, None);
    assert!(result.is_ok());
}

#[test]
fn test_validate_selector_with_text_and_boolean() {
    let text = Some(&"Login".to_string());
    let result = validate_selector(text, None, None, None, Some(true), None, None, None, None, None);
    assert!(result.is_ok());
}

#[test]
fn test_event_buffer_capacity() {
    let mut buffer = EventRing::new();
    for i in 0..150 {
        buffer.push(Event {
            event_id: format!("event_{}", i),
            timestamp: i as i64,
            event_type: EVENT_UI_CHANGE,
            toast_text: None,
        });
    }
    assert_eq!(buffer.len(), 100);
    assert_eq!(buffer.events().first().unwrap().event_id, "event_50");
    assert_eq!(buffer.events().last().unwrap().event_id, "event_149");
}

#[test]
fn test_event_type_mapping() {
    let test_cases = vec![
        ("ui_change", EVENT_UI_CHANGE),
        ("notification_posted", EVENT_NOTIFICATION_POSTED),
        ("toast_shown", EVENT_TOAST_SHOWN),
        ("app_crash", EVENT_APP_CRASH),
    ];
    for (type_str, expected_code) in test_cases {
        assert_eq!(event_type_code(type_str), Some(expected_code), "Failed to map event type: {}", type_str);
    }
}

#[test]
fn test_clipboard_params_validation() {
    let params = SetClipboardParams { text: "Hello, World!".to_string() };
    assert_eq!(params.text, "Hello, World!");
    let empty_params = SetClipboardParams { text: String::new() };
    assert_eq!(empty_params.text, "");
    let multiline_params = SetClipboardParams { text: "Line 1\nLine 2\nLine 3".to_string() };
    assert!(multiline_params.text.contains('\n'));
}

#[test]
fn test_clipboard_special_characters() {
    let special_chars = vec![
        "Hello \"World\"",
        "Path: C:\\Users\\test",
        "Email: test@example.com",
        "Unicode: 你好世界 🌍",
        "Newline:\nTab:\tSpace: ",
    ];
    for text in special_chars {
        let params = SetClipboardParams { text: text.to_string() };
        assert_eq!(params.text, text);
    }
}

#[test]
fn test_error_classification_connection_refused() {
    let mcp_error = to_mcp_error("Connection refused by peer");
    assert_eq!(mcp_error.code, McpErrorCode::InternalError);
    assert!(mcp_error.message.contains("Failed to connect to companion app"));
    assert!(mcp_error.message.contains("Troubleshooting checklist"));
    assert!(mcp_error.message.contains("adb forward tcp:38472"));
    assert!(mcp_error.message.contains("AccessibilityService"));
}

#[test]
fn test_error_classification_connection_timeout() {
    let mcp_error = to_mcp_error("Connection timeout after 5 seconds");
    assert_eq!(mcp_error.code, McpErrorCode::InternalError);
    assert!(mcp_error.message.contains("Failed to connect to companion app"));
    assert!(mcp_error.message.contains("companion app is installed"));
    assert!(mcp_error.message.contains("adb logcat"));
}

#[test]
fn test_error_classification_adb_error() {
    let mcp_error = to_mcp_error("ADB command failed: device not found");
    assert_eq!(mcp_error.code, McpErrorCode::InternalError);
    assert!(mcp_error.message.contains("ADB operation failed"));
    assert!(mcp_error.message.contains("adb devices"));
    assert!(mcp_error.message.contains("device is connected and authorized"));
    assert!(mcp_error.message.contains("adb kill-server"));
}

#[test]
fn test_error_classification_device_not_found() {
    let mcp_error = to_mcp_error("Device not found: emulator-5554");
    assert_eq!(mcp_error.code, McpErrorCode::InternalError);
    assert!(mcp_error.message.contains("ADB operation failed"));
}

#[test]
fn test_error_classification_no_device_selected() {
    let mcp_error = to_mcp_error("No device selected");
    assert_eq!(mcp_error.code, McpErrorCode::InvalidParams);
    assert!(mcp_error.message.contains("No device selected"));
    assert!(mcp_error.message.contains("--device <id>"));
    assert!(mcp_error.message.contains("--auto-discover"));
}

#[test]
fn test_error_classification_port_forwarding() {
    let mcp_error = to_mcp_error("Port forwarding failed for device emulator-5554");
    assert_eq!(mcp_error.code, McpErrorCode::InternalError);
    assert!(mcp_error.message.contains("Port forwarding setup failed"));
    assert!(mcp_error.message.contains("adb forward tcp:38472"));
    assert!(mcp_error.message.contains("port conflicts"));
    assert!(mcp_error.message.contains("netstat"));
}

#[test]
fn test_error_classification_generic() {
    let mcp_error = to_mcp_error("Some random error occurred");
    assert_eq!(mcp_error.code, McpErrorCode::InternalError);
    assert_eq!(mcp_error.message, "Some random error occurred");
    assert!(!mcp_error.message.contains("Troubleshooting"));
}

#[test]
fn test_error_classification_case_insensitive() {
    assert!(to_mcp_error("CONNECTION REFUSED").message.contains("Failed to connect to companion app"));
    assert!(to_mcp_error("Connection Timeout").message.contains("Failed to connect to companion app"));
    assert!(to_mcp_error("adb device not found").message.contains("ADB operation failed"));
}

#[test]
fn test_error_classification_connection_variations() {
    for error_msg in vec![
        "connection refused",
        "Connection refused by peer",
        "connection timeout occurred",
        "timeout while connecting - connection timeout",
    ] {
        assert!(
            to_mcp_error(error_msg).message.contains("Failed to connect to companion app"),
            "Error '{}' should be classified as connection error",
            error_msg
        );
    }
}

#[test]
fn test_error_classification_adb_variations() {
    for error_msg in vec!["adb: command not found", "ADB failed to start", "device not found in adb"] {
        assert!(
            to_mcp_error(error_msg).message.contains("ADB operation failed"),
            "Error '{}' should be classified as ADB error",
            error_msg
        );
    }
}

#[test]
fn test_error_codes() {
    assert_eq!(to_mcp_error("connection refused").code, McpErrorCode::InternalError);
    assert_eq!(to_mcp_error("no device selected").code, McpErrorCode::InvalidParams);
    assert_eq!(to_mcp_error("something went wrong").code, McpErrorCode::InternalError);
}

#[test]
fn test_troubleshooting_checklists() {
    for m in vec!["connection refused", "adb failed", "port forwarding failed"] {
        let msg = to_mcp_error(m).message;
        assert!(msg.contains("1."));
        assert!(msg.contains("2."));
        assert!(msg.contains("3."));
        assert!(msg.contains("4."));
    }
}

#[test]
fn error_message_layout() {
    let e = to_mcp_error("no route to host");
    assert!(e.message.starts_with("Failed to connect to companion app: no route to host\n\nTroubleshooting checklist:\n1."));
    let e = to_mcp_error("permission denied by device");
    assert!(e.message.starts_with("Permission denied: permission denied by device\n\n"));
    let e = to_mcp_error("device offline");
    assert!(e.message.starts_with("Device is offline or not responding: device offline"));
}
