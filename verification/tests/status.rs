use soundbar::text::{ascii_lowercase, trim_text};
use soundbar::capture::{aggregate_device_uid, check_status, fourcc};
use soundbar::permission::{capture_permission_message, permission_answer_accepted, terminal_context};

#[test]
fn zero_status_is_ok() {
    assert!(check_status(0, "AudioDeviceStart").is_ok());
}

#[test]
fn failing_status_reports_operation_and_code() {
    let error = check_status(0x77686174, "AudioDeviceStart").unwrap_err();
    assert_eq!(error.operation, "AudioDeviceStart");
    assert_eq!(error.status, 0x77686174);
    assert_eq!(error.message(), "AudioDeviceStart failed with OSStatus 2003329396 (what)");
}

#[test]
fn negative_status_is_shown_in_hex() {
    let error = check_status(-50, "AudioHardwareCreateProcessTap").unwrap_err();
    assert_eq!(
        error.message(),
        "AudioHardwareCreateProcessTap failed with OSStatus -50 (0xffffffce)"
    );
}

#[test]
fn fourcc_of_printable_bytes() {
    assert_eq!(fourcc(0x21737472), "!str");
    assert_eq!(fourcc(0x20202020), "    ");
    assert_eq!(fourcc(0x7e7e7e7e), "~~~~");
}

#[test]
fn fourcc_of_other_bytes_is_hex() {
    assert_eq!(fourcc(1), "0x00000001");
    assert_eq!(fourcc(0x7f414141), "0x7f414141");
    assert_eq!(fourcc(i32::MIN), "0x80000000");
    assert_eq!(fourcc(-1), "0xffffffff");
}

#[test]
fn aggregate_uid_carries_the_nanoseconds() {
    assert_eq!(aggregate_device_uid(0), "dev.soundbar.aggregate.0");
    assert_eq!(
        aggregate_device_uid(1_700_000_000_123_456_789),
        "dev.soundbar.aggregate.1700000000123456789"
    );
}

#[test]
fn permission_message_names_the_terminal() {
    assert_eq!(terminal_context("iTerm.app", "xterm-256color"), "Detected TERM_PROGRAM=iTerm.app, TERM=xterm-256color.");
    assert_eq!(
        capture_permission_message("unknown", "unknown"),
        "failed to start macOS system audio capture. Detected TERM_PROGRAM=unknown, TERM=unknown. Grant your launching terminal permission in System Settings > Privacy & Security > Screen & System Audio Recording, then fully quit and reopen that terminal."
    );
}

#[test]
fn prompt_answers() {
    assert!(permission_answer_accepted(""));
    assert!(permission_answer_accepted("\n"));
    assert!(permission_answer_accepted(" Y \n"));
    assert!(permission_answer_accepted("yes"));
    assert!(permission_answer_accepted("YeS"));
    assert!(!permission_answer_accepted("n"));
    assert!(!permission_answer_accepted("no"));
    assert!(!permission_answer_accepted("yess"));
}

#[test]
fn trimming_removes_unicode_white_space_and_is_stable() {
    let once = trim_text("\u{3000}\u{a0} a b\t\u{2029}");
    assert_eq!(once, "a b");
    assert_eq!(trim_text(&once), once);
    assert_eq!(trim_text(" \n\t "), "");
    assert_eq!(trim_text("x\u{200b}"), "x\u{200b}");
    assert_eq!(ascii_lowercase("AbC-ÄZ"), "abc-Äz");
}
