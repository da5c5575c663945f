use neuralbridge_mcp::device::manager::{
    accessibility_enabled_in, accessibility_services_update, companion_installed_in,
    is_valid_device_id, notification_listener_enabled_in, parse_devices_output, PermissionStatus,
};

fn status(c: bool, a: bool, n: bool) -> PermissionStatus {
    PermissionStatus {
        companion_installed: c,
        accessibility_enabled: a,
        notification_listener_enabled: n,
    }
}

#[test]
fn test_parse_devices_output() {
    let output = r#"List of devices attached
emulator-5554          device product:sdk_phone_x86_64 model:sdk_phone_x86_64 device:generic_x86_64
192.168.1.100:5555     device
"#;
    let devices = parse_devices_output(output);
    assert_eq!(devices.len(), 2);
    assert_eq!(devices[0].device_id, "emulator-5554");
    assert_eq!(devices[0].state, "device");
    assert_eq!(devices[0].model, Some("sdk_phone_x86_64".to_string()));
}

#[test]
fn test_parse_devices_offline() {
    let output = r#"List of devices attached
emulator-5554          offline
"#;
    let devices = parse_devices_output(output);
    assert_eq!(devices.len(), 0);
}

#[test]
fn test_permission_status_all_ready() {
    assert!(status(true, true, true).is_ready());
}

#[test]
fn test_permission_status_no_companion() {
    assert!(!status(false, true, true).is_ready());
}

#[test]
fn test_permission_status_no_accessibility() {
    assert!(!status(true, false, true).is_ready());
}

#[test]
fn test_permission_status_no_notification_listener() {
    assert!(!status(true, true, false).is_ready());
}

#[test]
fn test_permission_status_nothing_ready() {
    assert!(!status(false, false, false).is_ready());
}

#[test]
fn test_missing_permissions_message_none() {
    assert_eq!(status(true, true, true).missing_permissions_message(), None);
}

#[test]
fn test_missing_permissions_message_companion() {
    let msg = status(false, true, true).missing_permissions_message().unwrap();
    assert!(msg.contains("Companion app not installed"), "{}", msg);
}

#[test]
fn test_missing_permissions_message_accessibility() {
    let msg = status(true, false, true).missing_permissions_message().unwrap();
    assert!(msg.contains("AccessibilityService not enabled"), "{}", msg);
}

#[test]
fn test_missing_permissions_message_notification_listener() {
    let msg = status(true, true, false).missing_permissions_message().unwrap();
    assert!(msg.contains("NotificationListenerService not enabled"), "{}", msg);
}

#[test]
fn test_missing_permissions_message_multiple() {
    let msg = status(false, false, true).missing_permissions_message().unwrap();
    assert!(msg.contains("Companion app not installed"), "{}", msg);
    assert!(msg.contains("AccessibilityService not enabled"), "{}", msg);
    assert!(!msg.contains("NotificationListenerService"), "{}", msg);
}

#[test]
fn test_missing_permissions_message_all() {
    let msg = status(false, false, false).missing_permissions_message().unwrap();
    assert!(msg.contains("Companion app not installed"), "{}", msg);
    assert!(msg.contains("AccessibilityService not enabled"), "{}", msg);
    assert!(msg.contains("NotificationListenerService not enabled"), "{}", msg);
}

#[test]
fn test_parse_accessibility_enabled() {
    let output = "com.neuralbridge.companion/.service.NeuralBridgeAccessibilityService:com.android.talkback/.TalkBackService";
    assert!(accessibility_enabled_in(output));
}

#[test]
fn test_parse_accessibility_not_enabled() {
    let output = "com.android.talkback/.TalkBackService";
    assert!(!accessibility_enabled_in(output));
}

#[test]
fn test_parse_accessibility_null() {
    for output in vec!["null", "", "  "] {
        assert!(!accessibility_enabled_in(output), "'{}'", output);
    }
}

#[test]
fn test_parse_notification_listener_enabled() {
    let output = "com.neuralbridge.companion/.service.NeuralBridgeNotificationListener:com.android.systemui/.notificationlistener";
    assert!(notification_listener_enabled_in(output));
}

#[test]
fn test_parse_notification_listener_not_enabled() {
    let output = "com.android.systemui/.notificationlistener";
    assert!(!notification_listener_enabled_in(output));
}

#[test]
fn test_parse_notification_listener_null() {
    for output in vec!["null", "", "  "] {
        assert!(!notification_listener_enabled_in(output), "'{}'", output);
    }
}

#[test]
fn missing_message_lists_in_order() {
    let msg = status(false, false, false).missing_permissions_message().unwrap();
    assert_eq!(
        msg,
        "Missing permissions: Companion app not installed, AccessibilityService not enabled, NotificationListenerService not enabled"
    );
}

#[test]
fn companion_detection() {
    assert!(companion_installed_in("package:com.neuralbridge.companion\n"));
    assert!(!companion_installed_in(""));
}

#[test]
fn device_id_validation() {
    assert!(is_valid_device_id("emulator-5554"));
    assert!(is_valid_device_id("192.168.1.100:5555"));
    assert!(is_valid_device_id("abc_DEF"));
    assert!(!is_valid_device_id("abc;rm"));
    assert!(!is_valid_device_id("a b"));
    // Letters and digits of any script count, as `char::is_alphanumeric` has it.
    assert!(is_valid_device_id("émulateur-٣"));
    assert!(!is_valid_device_id("dev/1"));
}

#[test]
fn parse_devices_keeps_unauthorized_out() {
    let output = "List of devices attached\nR58M123 unauthorized usb:1-1\nR58M456 device usb:1-2 model:SM_G991B\n";
    let devices = parse_devices_output(output);
    assert_eq!(devices.len(), 1);
    assert_eq!(devices[0].device_id, "R58M456");
    assert_eq!(devices[0].model, Some("SM_G991B".to_string()));
    assert_eq!(devices[0].android_version, None);
}

#[test]
fn accessibility_update_values() {
    let a = accessibility_services_update("null");
    assert!(a.is_some());
    let b = accessibility_services_update("com.android.talkback/.TalkBackService");
    let b = b.unwrap();
    assert!(b.starts_with("com.android.talkback/.TalkBackService:"));
}
