use neuralbridge_mcp::device::adb::{AdbError, AdbExecutor, PathStatus};

#[test]
fn test_validate_package_name_valid() {
    assert!(AdbExecutor::validate_package_name("com.example.app").is_ok());
    assert!(AdbExecutor::validate_package_name("com.google.android.gms").is_ok());
    assert!(AdbExecutor::validate_package_name("com.test_app.demo").is_ok());
}

#[test]
fn test_validate_package_name_invalid() {
    assert!(AdbExecutor::validate_package_name("").is_err());
    assert!(AdbExecutor::validate_package_name("myapp").is_err());
    assert!(AdbExecutor::validate_package_name("com.app;rm -rf /").is_err());
    assert!(AdbExecutor::validate_package_name("com.app`whoami`").is_err());
    let long_name = "com.".to_string() + &"a".repeat(260);
    assert!(AdbExecutor::validate_package_name(&long_name).is_err());
}

#[test]
fn test_validate_permission_valid() {
    assert!(AdbExecutor::validate_permission("android.permission.CAMERA").is_ok());
    assert!(AdbExecutor::validate_permission("android.permission.READ_EXTERNAL_STORAGE").is_ok());
    assert!(AdbExecutor::validate_permission("com.example.permission.CUSTOM").is_ok());
}

#[test]
fn test_validate_permission_invalid() {
    assert!(AdbExecutor::validate_permission("").is_err());
    assert!(AdbExecutor::validate_permission("CAMERA").is_err());
    assert!(AdbExecutor::validate_permission("android.permission;rm").is_err());
    let long_perm = "android.".to_string() + &"a".repeat(260);
    assert!(AdbExecutor::validate_permission(&long_perm).is_err());
}

#[test]
fn test_revoke_permission_validates_package() {
    assert!(AdbExecutor::validate_package_name("").is_err());
    assert!(AdbExecutor::validate_package_name("nodots").is_err());
    assert!(AdbExecutor::validate_package_name("com.app;evil").is_err());
    assert!(AdbExecutor::validate_package_name("com.valid.package").is_ok());
}

#[test]
fn test_revoke_permission_validates_permission() {
    assert!(AdbExecutor::validate_permission("").is_err());
    assert!(AdbExecutor::validate_permission("CAMERA").is_err());
    assert!(AdbExecutor::validate_permission("android.permission;evil").is_err());
    assert!(AdbExecutor::validate_permission("android.permission.CAMERA").is_ok());
}

#[test]
fn test_validate_apk_path_invalid_extension() {
    assert!(AdbExecutor::validate_apk_path("app.txt", PathStatus::Missing).is_err());
    assert!(AdbExecutor::validate_apk_path("/path/to/app.zip", PathStatus::Missing).is_err());
}

#[test]
fn test_validate_apk_path_empty() {
    assert!(AdbExecutor::validate_apk_path("", PathStatus::Missing).is_err());
}

#[test]
fn test_clipboard_shell_escaping() {
    let escape = |text: &str| -> String { AdbExecutor::shell_quote(text) };
    assert_eq!(escape("Hello World"), "'Hello World'");
    assert_eq!(escape("it's"), "'it'\\''s'");
    assert_eq!(escape("text; rm -rf /"), "'text; rm -rf /'");
    assert_eq!(escape("text$(whoami)"), "'text$(whoami)'");
    assert_eq!(escape("text | cat"), "'text | cat'");
    assert_eq!(escape("text & bg"), "'text & bg'");
    assert_eq!(escape("line1\nline2"), "'line1\nline2'");
    assert_eq!(escape("user@domain.com"), "'user@domain.com'");
    assert_eq!(escape("C:\\Users"), "'C:\\Users'");
}

#[test]
fn adb_error_variants_come_from_their_inputs() {
    assert!(matches!(
        AdbExecutor::validate_package_name(""),
        Err(AdbError::InvalidPackageNameLength)
    ));
    match AdbExecutor::validate_package_name("nodots") {
        Err(AdbError::InvalidPackageNameFormat(n)) => assert_eq!(n, "nodots"),
        other => panic!("unexpected {:?}", other),
    }
    assert!(matches!(
        AdbExecutor::validate_permission(""),
        Err(AdbError::InvalidPermissionLength)
    ));
    assert!(matches!(
        AdbExecutor::validate_permission("CAMERA"),
        Err(AdbError::InvalidPermissionDomain)
    ));
    assert!(matches!(
        AdbExecutor::validate_permission("android.permission;rm"),
        Err(AdbError::InvalidPermissionCharacters)
    ));
    assert!(matches!(
        AdbExecutor::validate_apk_path("", PathStatus::File),
        Err(AdbError::ApkPathEmpty)
    ));
    assert!(matches!(
        AdbExecutor::validate_apk_path("a.zip", PathStatus::File),
        Err(AdbError::ApkPathExtension)
    ));
    match AdbExecutor::validate_apk_path("/tmp/a.apk", PathStatus::Missing) {
        Err(AdbError::ApkNotFound(p)) => assert_eq!(p, "/tmp/a.apk"),
        other => panic!("unexpected {:?}", other),
    }
    match AdbExecutor::validate_apk_path("/tmp", PathStatus::NotAFile) {
        Err(AdbError::ApkPathExtension) => {}
        other => panic!("unexpected {:?}", other),
    }
    match AdbExecutor::validate_apk_path("/tmp/dir.apk", PathStatus::NotAFile) {
        Err(AdbError::ApkNotAFile(p)) => assert_eq!(p, "/tmp/dir.apk"),
        other => panic!("unexpected {:?}", other),
    }
    assert!(AdbExecutor::validate_apk_path("/tmp/a.apk", PathStatus::File).is_ok());
}

#[test]
fn clipboard_command_quotes_text() {
    assert_eq!(
        AdbExecutor::clipboard_command("it's"),
        "cmd clipboard set-text 'it'\\''s'"
    );
}

#[test]
fn package_length_limit_counts_bytes() {
    let name = "com.".to_string() + &"a".repeat(251);
    assert_eq!(name.len(), 255);
    assert!(AdbExecutor::validate_package_name(&name).is_ok());
    let name = "com.".to_string() + &"a".repeat(252);
    assert!(AdbExecutor::validate_package_name(&name).is_err());
}

#[test]
fn crash_reports_are_kept() {
    let dump = "I/App: start\nE/AndroidRuntime: FATAL EXCEPTION: main\nE/AndroidRuntime: java.lang.NullPointerException\n\nI/App: later\n";
    assert_eq!(
        AdbExecutor::filter_crash_lines(dump),
        "E/AndroidRuntime: FATAL EXCEPTION: main\nE/AndroidRuntime: java.lang.NullPointerException"
    );
    assert_eq!(AdbExecutor::filter_crash_lines("nothing\nhere"), "");
}

#[test]
fn package_list_parsing() {
    let out = "package:com.a\npackage: com.b \nnot a package\npackage:\n";
    assert_eq!(AdbExecutor::parse_package_list(out), vec!["com.a".to_string(), "com.b".to_string()]);
}

#[test]
fn wm_values() {
    assert_eq!(AdbExecutor::parse_wm_value("Physical size: 1080x2400\n", "size"), "1080x2400");
    assert_eq!(AdbExecutor::parse_wm_value("Physical density: 420\n", "density"), "420");
    assert_eq!(AdbExecutor::parse_wm_value("", "size"), "unknown");
}

#[test]
fn command_arguments() {
    assert_eq!(AdbExecutor::install_args("emu", "/a.apk", true), vec!["-s", "emu", "install", "-r", "/a.apk"]);
    assert_eq!(AdbExecutor::install_args("emu", "/a.apk", false), vec!["-s", "emu", "install", "/a.apk"]);
    assert_eq!(AdbExecutor::uninstall_args("emu", "com.a", true), vec!["-s", "emu", "uninstall", "-k", "com.a"]);
    assert_eq!(
        AdbExecutor::list_packages_args("emu", "third_party"),
        vec!["-s", "emu", "shell", "pm", "list", "packages", "-3"]
    );
    assert_eq!(
        AdbExecutor::list_packages_args("emu", "all"),
        vec!["-s", "emu", "shell", "pm", "list", "packages"]
    );
    assert_eq!(
        AdbExecutor::logcat_args("emu", Some("123"), 50, "W"),
        vec!["-s", "emu", "logcat", "-d", "--pid=123", "-t", "50", "*:W"]
    );
    assert_eq!(
        AdbExecutor::logcat_args("emu", None, -1, "E"),
        vec!["-s", "emu", "logcat", "-d", "-t", "-1", "*:E"]
    );
}
