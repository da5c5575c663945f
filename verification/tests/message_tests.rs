use neuralbridge_mcp::device::adb::AdbError;
use neuralbridge_mcp::device::manager::PermissionStatus;
use neuralbridge_mcp::protocol::codec::{encode_frame, CodecError, MessageFramer, MessageType};
use neuralbridge_mcp::semantic::resolver::ResolveError;
use neuralbridge_mcp::semantic::selector::parse_selector;
use neuralbridge_mcp::server::devices::{auto_discovered_device, sole_ready_device};
use neuralbridge_mcp::server::policy::{ReadinessGate, ReadinessPlan};

#[test]
fn resolve_error_texts() {
    assert_eq!(ResolveError::NoMatch.message(), "No elements found matching selector");
    assert_eq!(
        ResolveError::IndexOutOfRange { index: 3, matches: 1 }.message(),
        "Index 3 out of range (only 1 matches)"
    );
}

#[test]
fn selector_error_texts() {
    assert_eq!(parse_selector("Submit").unwrap_err().message(), "Invalid selector syntax: Submit");
    assert_eq!(parse_selector("[text]").unwrap_err().message(), "Invalid attribute selector: [text]");
    assert_eq!(parse_selector("[bogus=\"x\"]").unwrap_err().message(), "Unknown attribute: bogus");
}

#[test]
fn codec_error_texts() {
    assert_eq!(CodecError::InvalidMessageType(0x0A).message(), "Invalid message type: 0x0A");
    assert_eq!(CodecError::BufferTooShort(3).message(), "Buffer too short for header: 3 bytes");
    assert_eq!(CodecError::InvalidMagic(0xFFFF).message(), "Invalid magic bytes: 0xFFFF, expected 0x4E42");
    assert_eq!(
        CodecError::PayloadTooLarge(16777217).message(),
        "Payload length 16777217 exceeds maximum 16777216"
    );
    assert_eq!(
        CodecError::IncompletePayload(2, 5).message(),
        "Buffer too short for payload: 2 bytes available, 5 expected"
    );
}

#[test]
fn adb_error_texts() {
    assert_eq!(AdbError::ApkPathEmpty.message(), "APK path is empty");
    assert_eq!(
        AdbError::InvalidPackageNameFormat("a b".to_string()).message(),
        "Invalid package name format: a b"
    );
    assert_eq!(AdbError::ApkNotFound("/x.apk".to_string()).message(), "APK file does not exist: /x.apk");
}

#[test]
fn framer_gives_back_messages_under_any_chunking() {
    let mut stream = encode_frame(MessageType::Response, b"hello");
    stream.extend(encode_frame(MessageType::Event, b""));
    stream.extend(encode_frame(MessageType::Request, &[7u8; 40]));
    for chunk in [1usize, 2, 3, 7, 13, stream.len()] {
        let mut framer = MessageFramer::new();
        let mut got = Vec::new();
        for piece in stream.chunks(chunk) {
            framer.add_data(piece);
            while let Some((h, p)) = framer.try_extract_message().unwrap() {
                got.push((h.message_type, h.payload_length, p));
            }
        }
        assert_eq!(
            got,
            vec![
                (MessageType::Response, 5, b"hello".to_vec()),
                (MessageType::Event, 0, Vec::new()),
                (MessageType::Request, 40, vec![7u8; 40]),
            ]
        );
        assert_eq!(framer.buffered_len(), 0);
    }
}

#[test]
fn readiness_gate_checks_once() {
    let ready = PermissionStatus { companion_installed: true, accessibility_enabled: true, notification_listener_enabled: true };
    let missing = PermissionStatus { companion_installed: true, accessibility_enabled: false, notification_listener_enabled: true };
    let mut gate = ReadinessGate::new();
    assert!(!gate.is_confirmed());
    match gate.plan(&missing, false) {
        ReadinessPlan::NotReady(m) => assert_eq!(
            m,
            "Missing permissions: AccessibilityService not enabled\n\nUse --enable-permissions flag to auto-enable missing permissions"
        ),
        other => panic!("unexpected plan {:?}", other),
    }
    assert!(!gate.is_confirmed());
    assert!(matches!(gate.plan(&missing, true), ReadinessPlan::Enable { accessibility: true, notification_listener: false }));
    assert!(gate.after_enable(&ready).is_ok());
    assert!(gate.is_confirmed());
    gate.reset();
    assert!(!gate.is_confirmed());
    assert!(matches!(gate.plan(&ready, false), ReadinessPlan::Ready));
    assert!(gate.is_confirmed());
}

#[test]
fn start_device_choice() {
    assert_eq!(auto_discovered_device(&vec![]), None);
    assert_eq!(auto_discovered_device(&vec![false, true, true]), Some(1));
    assert_eq!(auto_discovered_device(&vec![false, false]), Some(0));
    assert_eq!(sole_ready_device(&vec![true]), Some(0));
    assert_eq!(sole_ready_device(&vec![false]), None);
    assert_eq!(sole_ready_device(&vec![true, true]), None);
}
