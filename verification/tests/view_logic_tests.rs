use base64::Engine;
use neuralbridge_mcp::device::manager::{DeviceInfo, PermissionStatus};
use neuralbridge_mcp::device::pool::PoolLedger;
use neuralbridge_mcp::protocol::pb::{Bounds, UiElement, EVENT_TOAST_SHOWN, EVENT_UI_CHANGE};
use neuralbridge_mcp::server::devices::{check_selection, device_row, permission_report};
use neuralbridge_mcp::server::diff::{compare_images, compare_screenshots, count_matching_pixels, Comparison, DiffError};
use neuralbridge_mcp::server::events::{cutoff_fits, toast_cutoff, Event, EventRing};
use neuralbridge_mcp::server::logcat::{compress_logcat, strip_timestamp_exec};
use neuralbridge_mcp::server::scroll::{same_ids, visible_ids, ScrollOutcome, ScrollSearch, ScrollStep};
use neuralbridge_mcp::server::ui::{
    accessibility_audit, audit_fits, centers_fit, compact_table, filter_elements, filter_mode, filter_name,
    format_element, screen_context_elements, FilterMode, ViolationKind,
};

fn el(id: &str) -> UiElement {
    UiElement {
        element_id: id.to_string(),
        resource_id: String::new(),
        class_name: String::new(),
        text: String::new(),
        content_description: String::new(),
        semantic_type: String::new(),
        bounds: None,
        visible: true,
        enabled: true,
        clickable: false,
        focusable: false,
        checkable: false,
        scrollable: false,
        depth: 0,
    }
}

fn strings(v: &[&str]) -> Vec<String> {
    v.iter().map(|s| s.to_string()).collect()
}

#[test]
fn filters() {
    assert_eq!(filter_name(None, true), "interactive");
    assert_eq!(filter_name(None, false), "all");
    assert_eq!(filter_name(Some("weird"), true), "weird");
    assert_eq!(filter_mode("all"), FilterMode::All);
    assert_eq!(filter_mode("text"), FilterMode::Text);
    assert_eq!(filter_mode("weird"), FilterMode::Interactive);
    let mut a = el("a");
    a.clickable = true;
    let mut b = el("b");
    b.content_description = "desc".to_string();
    let c = el("c");
    let all = vec![a, b, c];
    let ids = |v: Vec<UiElement>| -> Vec<String> { v.into_iter().map(|e| e.element_id).collect() };
    assert_eq!(ids(filter_elements(&all, FilterMode::All)), strings(&["a", "b", "c"]));
    assert_eq!(ids(filter_elements(&all, FilterMode::Text)), strings(&["b"]));
    assert_eq!(ids(filter_elements(&all, FilterMode::Interactive)), strings(&["a", "b"]));
}

#[test]
fn compact_table_rows() {
    let mut e = el("n1");
    e.resource_id = "com.app:id/ok".to_string();
    e.text = "OK".to_string();
    e.clickable = true;
    e.focusable = true;
    e.bounds = Some(Bounds { left: 0, top: 0, right: 100, bottom: 50 });
    let mut f = el("n2");
    f.scrollable = true;
    f.checkable = true;
    assert_eq!(
        compact_table(&vec![e, f]),
        "IDX | resource_id | text | desc | flags | bounds\n0 | com.app:id/ok | OK |  | cf | [0,0,100,50]\n1 |  |  |  | sk |"
    );
    assert_eq!(compact_table(&Vec::new()), "IDX | resource_id | text | desc | flags | bounds");
}

#[test]
fn element_summaries() {
    let mut e = el("n1");
    e.class_name = "android.widget.FrameLayout".to_string();
    e.semantic_type = "0".to_string();
    e.text = "Hi".to_string();
    let s = format_element(&e);
    assert_eq!(s.id, "n1");
    assert_eq!(s.class_name, None);
    assert_eq!(s.semantic_type, None);
    assert_eq!(s.text, Some("Hi".to_string()));
    assert_eq!(s.resource_id, None);
    e.class_name = "android.widget.Button".to_string();
    e.semantic_type = "button".to_string();
    let s = format_element(&e);
    assert_eq!(s.class_name, Some("android.widget.Button".to_string()));
    assert_eq!(s.semantic_type, Some("button".to_string()));
}

#[test]
fn screen_context_centres() {
    let mut a = el("a");
    a.text = "t".to_string();
    a.bounds = Some(Bounds { left: -3, top: 0, right: 0, bottom: 9 });
    let b = el("b");
    let all = vec![a, b];
    assert!(centers_fit(&all));
    let ctx = screen_context_elements(&all, false);
    assert_eq!(ctx.len(), 1);
    assert_eq!(ctx[0].center, Some((-1, 4)));
    assert_eq!(screen_context_elements(&all, true).len(), 2);
    let mut big = el("big");
    big.bounds = Some(Bounds { left: i32::MAX, top: 0, right: 1, bottom: 0 });
    assert!(!centers_fit(&vec![big]));
}

#[test]
fn audit_finds_each_problem() {
    let mut bad = el("bad");
    bad.clickable = true;
    bad.bounds = Some(Bounds { left: 0, top: 0, right: 50, bottom: 50 });
    let mut good = el("good");
    good.clickable = true;
    good.focusable = true;
    good.text = "Go".to_string();
    good.bounds = Some(Bounds { left: 0, top: 0, right: 200, bottom: 100 });
    let mut unbounded = el("nob");
    unbounded.clickable = true;
    let all = vec![good, bad, unbounded, el("plain")];
    assert!(audit_fits(&all));
    let r = accessibility_audit(&all);
    assert_eq!(r.total_elements, 4);
    assert_eq!(r.interactive_elements, 3);
    let kinds: Vec<ViolationKind> = r.violations.iter().map(|v| v.kind).collect();
    assert_eq!(
        kinds,
        vec![ViolationKind::MissingLabel, ViolationKind::SmallTouchTarget, ViolationKind::NotKeyboardAccessible]
    );
    assert!(r.violations.iter().all(|v| v.index == 1 && v.width == 50 && v.height == 50));
}

#[test]
fn logcat_compression() {
    let mut line: Vec<char> = "02-19 10:23:45.123  1234  5678 W TAG: msg".chars().collect();
    assert_eq!(strip_timestamp_exec(&line).iter().collect::<String>(), "W TAG: msg");
    line = "02-19 10:23:45.123 1234 5678 W TAG: msg".chars().collect();
    assert_eq!(strip_timestamp_exec(&line).iter().collect::<String>(), "W TAG: msg");
    line = "not a log line".chars().collect();
    assert_eq!(strip_timestamp_exec(&line).iter().collect::<String>(), "not a log line");

    let (out, n) = compress_logcat("a\na\na\nb\n", 8000);
    assert_eq!(out, "a (x3)\nb");
    assert_eq!(n, 8);
    let (out, n) = compress_logcat("line1\nline2\nline3", 8);
    assert_eq!(out, "... (truncated)\nline3");
    assert_eq!(n, 17);
    let (out, _) = compress_logcat("abcdefghij", 4);
    assert_eq!(out, "... (truncated)\nghij");
    // A cut inside a character moves to the next character.
    assert_eq!(compress_logcat("éé", 1).0, "... (truncated)\n");
    assert_eq!(compress_logcat("aéé", 3).0, "... (truncated)\né");
    assert_eq!(compress_logcat("éé", 2).0, "... (truncated)\né");
    line = "02-19 10:23:45.123  1234  5678 W".chars().collect();
    assert_eq!(strip_timestamp_exec(&line).iter().collect::<String>(), "02-19 10:23:45.123  1234  5678 W");
    assert_eq!(compress_logcat("02-19 10:23:45.123  1234  5678 W TAG: msg", 8000).0, "W TAG: msg");
}

#[test]
fn scroll_search_flow() {
    let mut s = ScrollSearch::new(Some(2), None);
    assert_eq!(s.after_find(false), None);
    assert_eq!(s.next_step(0), ScrollStep::Fling);
    assert_eq!(s.scrolls(), 1);
    assert_eq!(s.after_tree(Some(strings(&["b", "a"]))), None);
    assert_eq!(s.next_step(10), ScrollStep::Fling);
    assert_eq!(s.after_tree(Some(strings(&["a", "b"]))), Some(ScrollOutcome::EndOfScroll { scrolls: 2 }));
    let mut t = ScrollSearch::new(Some(1), Some(100));
    assert_eq!(t.next_step(101), ScrollStep::Finish(ScrollOutcome::Timeout { scrolls: 0 }));
    assert_eq!(t.next_step(0), ScrollStep::Fling);
    assert_eq!(t.after_find(true), Some(ScrollOutcome::Found { scrolls: 1 }));
    assert_eq!(t.next_step(0), ScrollStep::Finish(ScrollOutcome::MaxScrolls { scrolls: 1, max: 1 }));
    let mut z = ScrollSearch::new(Some(-3), None);
    assert_eq!(z.next_step(0), ScrollStep::Finish(ScrollOutcome::MaxScrolls { scrolls: 0, max: -3 }));
}

#[test]
fn id_multisets() {
    assert!(same_ids(&strings(&["a", "b", "a"]), &strings(&["a", "a", "b"])));
    assert!(!same_ids(&strings(&["a", "b", "a"]), &strings(&["a", "b", "b"])));
    assert!(!same_ids(&strings(&["a"]), &strings(&["a", "a"])));
    assert!(same_ids(&Vec::new(), &Vec::new()));
    let mut hidden = el("h");
    hidden.visible = false;
    assert_eq!(visible_ids(&vec![el("x"), hidden, el("y")]), strings(&["x", "y"]));
}

#[test]
fn pixel_comparison() {
    let a = vec![10, 20, 30, 255, 0, 0, 0, 0];
    let b = vec![20, 10, 40, 0, 0, 0, 11, 0];
    assert_eq!(count_matching_pixels(&a, &b, 2), 1);
    assert_eq!(
        compare_images(2, 1, &a, 2, 1, &b),
        Comparison::Compared { width: 2, height: 1, total_pixels: 2, matching_pixels: 1 }
    );
    assert_eq!(
        compare_images(2, 1, &a, 1, 2, &b),
        Comparison::DimensionMismatch { reference_width: 2, reference_height: 1, current_width: 1, current_height: 2 }
    );
    assert!(matches!(compare_screenshots("not base64!!", &[]), Err(DiffError::ReferenceEncoding(_))));
    assert!(matches!(compare_screenshots("AAAA", &[]), Err(DiffError::ReferenceImage(_))));
}

fn png(width: u32, height: u32, shade: u8) -> Vec<u8> {
    let img = image::RgbaImage::from_pixel(width, height, image::Rgba([shade, shade, shade, 255]));
    let mut out = Vec::new();
    image::DynamicImage::ImageRgba8(img)
        .write_to(&mut std::io::Cursor::new(&mut out), image::ImageFormat::Png)
        .unwrap();
    out
}

#[test]
fn screenshot_comparison_of_encoded_images() {
    let reference = base64::engine::general_purpose::STANDARD.encode(png(3, 2, 100));
    assert_eq!(
        compare_screenshots(&reference, &png(3, 2, 105)).unwrap(),
        Comparison::Compared { width: 3, height: 2, total_pixels: 6, matching_pixels: 6 }
    );
    assert_eq!(
        compare_screenshots(&reference, &png(3, 2, 200)).unwrap(),
        Comparison::Compared { width: 3, height: 2, total_pixels: 6, matching_pixels: 0 }
    );
    assert_eq!(
        compare_screenshots(&reference, &png(2, 3, 100)).unwrap(),
        Comparison::DimensionMismatch { reference_width: 3, reference_height: 2, current_width: 2, current_height: 3 }
    );
    assert!(matches!(compare_screenshots(&reference, b"not an image"), Err(DiffError::CurrentImage(_))));
}

#[test]
fn event_ring_and_toasts() {
    let mut ring = EventRing::new();
    ring.push(Event { event_id: "1".to_string(), timestamp: 100, event_type: EVENT_TOAST_SHOWN, toast_text: Some("old".to_string()) });
    ring.push(Event { event_id: "2".to_string(), timestamp: 900, event_type: EVENT_TOAST_SHOWN, toast_text: Some("new".to_string()) });
    ring.push(Event { event_id: "3".to_string(), timestamp: 950, event_type: EVENT_UI_CHANGE, toast_text: None });
    ring.push(Event { event_id: "4".to_string(), timestamp: 990, event_type: EVENT_TOAST_SHOWN, toast_text: None });
    let cutoff = toast_cutoff(1000, 500);
    assert_eq!(cutoff, 500);
    let toasts = ring.recent_toasts(cutoff);
    assert_eq!(toasts.len(), 1);
    assert_eq!(toasts[0].text, "new");
    assert_eq!(toasts[0].timestamp, 900);
    assert!(cutoff_fits(0, i64::MAX));
    assert!(!cutoff_fits(i64::MIN, 1));
}

#[test]
fn device_rows_and_selection() {
    let info = DeviceInfo { device_id: "emu".to_string(), state: "device".to_string(), model: Some("Pixel".to_string()), android_version: None };
    let ready = PermissionStatus { companion_installed: true, accessibility_enabled: true, notification_listener_enabled: true };
    let row = device_row("emu", &Some(info), Some(ready), Some("emu"));
    assert_eq!(row.model, "Pixel");
    assert_eq!(row.android_version, "Unknown");
    assert_eq!(row.state, "device");
    assert!(row.is_ready && row.is_selected);
    let row = device_row("other", &None, None, Some("emu"));
    assert_eq!(row.model, "Unknown");
    assert_eq!(row.state, "unknown");
    assert!(!row.is_ready && !row.is_selected && !row.companion_installed);
    let found = strings(&["emu", "192.168.1.5:5555"]);
    assert!(check_selection("192.168.1.5:5555", &found).is_ok());
    assert_eq!(
        check_selection("bad id", &found).unwrap_err(),
        "Invalid device_id format: 'bad id'. Must contain only alphanumeric characters and '.:-_'"
    );
    assert_eq!(
        check_selection("gone", &found).unwrap_err(),
        "Device 'gone' not found. Run android_list_devices to see available devices."
    );
}

#[test]
fn setup_report_lines() {
    let s = PermissionStatus { companion_installed: true, accessibility_enabled: false, notification_listener_enabled: true };
    let lines = permission_report(&s);
    assert_eq!(
        lines,
        strings(&[
            "   Companion app installed:       ✓",
            "   AccessibilityService enabled:  ✗",
            "   NotificationListener enabled:  ✓",
            "   Status: ✗ NOT READY",
            "   Missing permissions: AccessibilityService not enabled",
        ])
    );
    let ok = PermissionStatus { companion_installed: true, accessibility_enabled: true, notification_listener_enabled: true };
    assert_eq!(permission_report(&ok).last().unwrap(), "   Status: ✓ READY");
}

#[test]
fn pool_ledger_counts() {
    let mut pool = PoolLedger::new();
    let s = pool.stats();
    assert_eq!((s.total_connections, s.active_connections), (0, 0));
    pool.insert_fresh("emu");
    pool.insert_fresh("dev2");
    pool.acquire("emu");
    assert_eq!(pool.ref_count("emu"), Some(2));
    pool.release("dev2");
    pool.release("dev2");
    assert_eq!(pool.ref_count("dev2"), Some(0));
    let s = pool.stats();
    assert_eq!((s.total_connections, s.active_connections), (2, 1));
    pool.insert_fresh("emu");
    assert_eq!(pool.ref_count("emu"), Some(1));
    pool.remove("emu");
    assert_eq!(pool.ref_count("emu"), None);
    assert_eq!(pool.device_ids(), strings(&["dev2"]));
    pool.clear();
    assert_eq!(pool.stats().total_connections, 0);
}

#[test]
fn test_connection_pool_creation() {
    let pool = PoolLedger::new();
    let stats = pool.stats();
    assert_eq!(stats.total_connections, 0);
    assert_eq!(stats.active_connections, 0);
}

#[test]
fn test_connection_pool_stats() {
    let pool = PoolLedger::new();
    let stats = pool.stats();
    assert_eq!(stats.total_connections, 0);
}
