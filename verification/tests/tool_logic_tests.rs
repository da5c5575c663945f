use neuralbridge_mcp::device::manager::PermissionStatus;
use neuralbridge_mcp::protocol::pb::{Direction, ErrorCode};
use neuralbridge_mcp::server::catalog::{consolidated_away, describe_tools, find_tool, search_tools, tool_catalog};
use neuralbridge_mcp::server::config::{parse_args, CliStop, ResponseFormatConfig};
use neuralbridge_mcp::server::errors::McpErrorCode;
use neuralbridge_mcp::server::policy::{
    find_failure_message, is_retryable_send_error, launch_failure_message, needs_adb_screenshot,
    needs_reconnect, readiness_after_enable, readiness_plan, retry_step, tap_failure_message,
    wait_verdict, AttemptOutcome, ReadinessPlan, RetryStep, WaitVerdict,
};
use neuralbridge_mcp::server::tools::{
    app_list_filter, event_type_codes, find_elements_selector, gesture_target, input_text_target,
    launch_target, parse_direction, query_selector, screenshot_quality, scroll_direction,
    GestureTarget, LaunchTarget, ScreenshotQuality,
};

fn args(v: &[&str]) -> Vec<String> {
    v.iter().map(|s| s.to_string()).collect()
}

#[test]
fn directions() {
    assert_eq!(parse_direction("UP").unwrap(), Direction::Up);
    assert_eq!(parse_direction("left").unwrap(), Direction::Left);
    assert_eq!(
        parse_direction("sideways").unwrap_err(),
        "Invalid direction: 'sideways'. Supported: up, down, left, right"
    );
    assert_eq!(scroll_direction(None), Direction::Up);
    assert_eq!(scroll_direction(Some("Down")), Direction::Down);
    assert_eq!(scroll_direction(Some("diagonal")), Direction::Up);
}

#[test]
fn unknown_key_and_action_messages() {
    assert_eq!(
        neuralbridge_mcp::server::tools::map_key_string_to_code("F13").unwrap_err(),
        "Unknown key: 'F13'. Supported keys: back, home, menu, enter, delete, tab, space, volume_up, volume_down, power"
    );
    assert_eq!(
        neuralbridge_mcp::server::tools::map_action_string_to_code("fly").unwrap_err(),
        "Unknown action: 'fly'. Supported actions: back, home, recents, notifications, quick_settings, lock_screen, screenshot"
    );
}

#[test]
fn event_type_list_skips_unknown() {
    let names = args(&["UI_CHANGE", "bogus", "app_crash", "toast_shown"]);
    assert_eq!(event_type_codes(&names), vec![1, 4, 3]);
    assert!(event_type_codes(&Vec::new()).is_empty());
}

#[test]
fn gesture_targets() {
    match gesture_target(Some(10), Some(20), Some("x".to_string()), None, None).unwrap() {
        GestureTarget::Coordinates { x, y } => assert_eq!((x, y), (10, 20)),
        _ => panic!("expected coordinates"),
    }
    match gesture_target(Some(10), None, Some("OK".to_string()), None, None).unwrap() {
        GestureTarget::Selector(s) => {
            assert_eq!(s.text, "OK");
            assert!(s.visible_only && s.enabled_only);
            assert_eq!(s.index, 0);
        }
        _ => panic!("expected a selector"),
    }
    let e = gesture_target(None, None, Some(String::new()), None, None).err().unwrap();
    assert_eq!(e.code, McpErrorCode::InvalidParams);
    assert!(e.message.starts_with("Selector must have at least one non-empty field"));
}

#[test]
fn input_targets() {
    assert!(input_text_target(None, None).unwrap().is_none());
    let s = input_text_target(None, Some("com.app:id/name".to_string())).unwrap().unwrap();
    assert_eq!(s.resource_id, "com.app:id/name");
    assert!(input_text_target(Some(String::new()), None).is_err());
}

#[test]
fn query_and_find_selectors() {
    let q = query_selector(Some("Done".to_string()), None, Some("desc".to_string()));
    assert_eq!(q.text, "Done");
    assert_eq!(q.content_desc, "desc");
    assert!(q.visible_only && !q.enabled_only);
    let f = find_elements_selector(None, None, None, Some("Button".to_string()), Some(true), None, None, None, None, Some(false));
    assert_eq!(f.class_name, "Button");
    assert_eq!(f.clickable, Some(true));
    assert_eq!(f.checked, Some(false));
    assert!(f.visible_only && !f.enabled_only);
}

#[test]
fn other_params() {
    assert_eq!(screenshot_quality(Some("thumbnail")), ScreenshotQuality::Thumbnail);
    assert_eq!(screenshot_quality(Some("full")), ScreenshotQuality::Full);
    assert_eq!(screenshot_quality(None), ScreenshotQuality::Full);
    assert_eq!(app_list_filter(None).unwrap(), "all");
    assert_eq!(app_list_filter(Some("system")).unwrap(), "system");
    assert_eq!(
        app_list_filter(Some("mine")).unwrap_err(),
        "Invalid filter 'mine'. Must be one of: all, third_party, system"
    );
    match launch_target("com.app", Some(".Main".to_string())) {
        LaunchTarget::Activity(a) => assert_eq!(a, ".Main"),
        _ => panic!(),
    }
    match launch_target("com.app", None) {
        LaunchTarget::PackageName(p) => assert_eq!(p, "com.app"),
        _ => panic!(),
    }
}

#[test]
fn failure_messages() {
    assert_eq!(
        tap_failure_message(ErrorCode::ElementNotVisible, "hidden"),
        "Failed to tap: hidden\nSuggestion: Element is not visible. Try android_swipe to scroll the element into view first."
    );
    assert_eq!(tap_failure_message(ErrorCode::Other, "boom"), "Failed to tap: boom");
    assert!(find_failure_message(ErrorCode::ElementAmbiguous, "2 matches").contains("set find_all=true"));
    assert_eq!(find_failure_message(ErrorCode::Timeout, "t"), "Failed to find elements: t");
    assert!(launch_failure_message(ErrorCode::AppNotInstalled, "no").contains("App is not installed"));
    assert!(launch_failure_message(ErrorCode::ActivityNotFound, "no").contains("Activity not found"));
}

#[test]
fn waits_and_retries() {
    assert_eq!(wait_verdict(true, ErrorCode::Timeout), WaitVerdict::Met);
    assert_eq!(wait_verdict(false, ErrorCode::Timeout), WaitVerdict::TimedOut);
    assert_eq!(wait_verdict(false, ErrorCode::Other), WaitVerdict::Failed);
    assert_eq!(retry_step(0, 1, AttemptOutcome::Succeeded), RetryStep::Finish);
    assert_eq!(retry_step(0, 1, AttemptOutcome::Failed { code: ErrorCode::ElementNotFound }), RetryStep::Retry);
    assert_eq!(retry_step(1, 1, AttemptOutcome::Failed { code: ErrorCode::ElementNotFound }), RetryStep::Finish);
    assert_eq!(retry_step(0, 1, AttemptOutcome::Failed { code: ErrorCode::Timeout }), RetryStep::Finish);
    assert_eq!(retry_step(0, 1, AttemptOutcome::SendError { retryable: true }), RetryStep::Retry);
    assert_eq!(retry_step(0, 1, AttemptOutcome::SendError { retryable: false }), RetryStep::Finish);
    assert!(is_retryable_send_error("read timeout"));
    assert!(is_retryable_send_error("connection lost"));
    assert!(!is_retryable_send_error("Connection lost"));
    assert!(needs_reconnect("Broken pipe (os error 32)"));
    assert!(needs_reconnect("failed to WRITE frame"));
    assert!(!needs_reconnect("timeout waiting for response"));
    assert!(needs_adb_screenshot("MediaProjection not granted"));
    assert!(!needs_adb_screenshot("mediaprojection"));
}

#[test]
fn readiness() {
    let ready = PermissionStatus { companion_installed: true, accessibility_enabled: true, notification_listener_enabled: true };
    let partial = PermissionStatus { companion_installed: true, accessibility_enabled: false, notification_listener_enabled: true };
    assert!(matches!(readiness_plan(&ready, false), ReadinessPlan::Ready));
    match readiness_plan(&partial, true) {
        ReadinessPlan::Enable { accessibility, notification_listener } => {
            assert!(accessibility);
            assert!(!notification_listener);
        }
        _ => panic!(),
    }
    match readiness_plan(&partial, false) {
        ReadinessPlan::NotReady(m) => assert_eq!(
            m,
            "Missing permissions: AccessibilityService not enabled\n\nUse --enable-permissions flag to auto-enable missing permissions"
        ),
        _ => panic!(),
    }
    assert!(readiness_after_enable(&ready).is_ok());
    assert_eq!(
        readiness_after_enable(&partial).unwrap_err(),
        "Missing permissions: AccessibilityService not enabled"
    );
}

#[test]
fn catalog_and_search() {
    let catalog = tool_catalog();
    assert_eq!(catalog.len(), 43);
    assert_eq!(catalog[0].name, "android_get_ui_tree");
    let names = |v: Vec<neuralbridge_mcp::server::catalog::ToolInfo>| -> Vec<&'static str> {
        v.iter().map(|t| t.name).collect()
    };
    assert_eq!(
        names(search_tools("element", None)),
        vec![
            "android_find_elements",
            "android_wait_for_element",
            "android_scroll_to_element",
            "android_get_ui_tree",
            "android_tap",
            "android_long_press",
            "android_input_text",
            "android_double_tap",
            "android_wait_for_gone"
        ]
    );
    assert_eq!(names(search_tools("TAP", Some("ACT"))), vec!["android_tap", "android_double_tap"]);
    assert_eq!(names(search_tools("screenshot", None)), vec!["android_screenshot", "android_screenshot_diff"]);
    assert!(search_tools("zzz", None).is_empty());
    assert_eq!(names(search_tools("", Some("meta"))), vec!["android_search_tools", "android_describe_tools"]);
    let d = describe_tools(&args(&["android_tap", "nope"]));
    assert_eq!(d.len(), 2);
    assert_eq!(d[0].unwrap().category, "act");
    assert!(d[1].is_none());
    assert!(find_tool("android_drag").is_some());
    assert_eq!(consolidated_away().len(), 4);
}

#[test]
fn command_line() {
    let o = parse_args(&args(&["prog", "--device", "emulator-5554", "--no-compact-tree", "--weird", "--check"]));
    assert_eq!(o.device_id, Some("emulator-5554".to_string()));
    assert!(o.check_mode);
    assert!(!o.config.compact_tree);
    assert!(o.config.filter_elements);
    assert_eq!(o.unknown, args(&["--weird"]));
    assert_eq!(o.stop, None);
    let o = parse_args(&args(&["prog", "--auto-discover", "--help", "--check"]));
    assert!(o.auto_discover);
    assert!(!o.check_mode);
    assert_eq!(o.stop, Some(CliStop::Help));
    let o = parse_args(&args(&["prog", "--device"]));
    assert_eq!(o.stop, Some(CliStop::MissingDeviceValue));
    let o = parse_args(&args(&["prog"]));
    assert_eq!(o.config, ResponseFormatConfig::default());
    assert!(!o.enable_permissions);
}
