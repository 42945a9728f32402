use filespider::error::{tool_failure_report, RenderError};
use filespider::text::decimal_text;

#[test]
fn decimal_of_small_numbers() {
    assert_eq!(decimal_text(0), "0");
    assert_eq!(decimal_text(7), "7");
    assert_eq!(decimal_text(10), "10");
    assert_eq!(decimal_text(101), "101");
    assert_eq!(decimal_text(-1), "-1");
    assert_eq!(decimal_text(-120), "-120");
}

#[test]
fn decimal_of_the_extremes() {
    assert_eq!(decimal_text(i32::MAX), "2147483647");
    assert_eq!(decimal_text(i32::MIN), "-2147483648");
}

#[test]
fn decimal_agrees_with_the_standard_library() {
    for n in [-1000, -999, -11, -10, -9, 1, 9, 11, 99, 100, 4096, 65535, 1000000] {
        assert_eq!(decimal_text(n), n.to_string());
    }
}

#[test]
fn tool_failure_report_has_the_fixed_layout() {
    assert_eq!(
        tool_failure_report("pandoc", 64, "some output", "it broke"),
        "Command pandoc failed with exit code 64\n\nSTDOUT\nsome output\n\nSTDERR\nPit broke"
    );
    assert_eq!(
        tool_failure_report("pdflatex", -1, "", ""),
        "Command pdflatex failed with exit code -1\n\nSTDOUT\n\n\nSTDERR\nP"
    );
}

#[test]
fn error_messages() {
    assert_eq!(RenderError::DocumentNotFound.message(), "document does not exist");
    assert_eq!(RenderError::NotRecorded.message(), "renderer didn't insert into cache");
    assert_eq!(RenderError::Io("disk full".to_string()).message(), "disk full");
    assert_eq!(RenderError::Store("locked".to_string()).message(), "locked");
    let failed = RenderError::ToolFailed {
        tool: "xournalpp".to_string(),
        exit_code: 2,
        stdout: "o".to_string(),
        stderr: "e".to_string(),
    };
    assert_eq!(
        failed.message(),
        "Command xournalpp failed with exit code 2\n\nSTDOUT\no\n\nSTDERR\nPe"
    );
    assert!(failed.message().ends_with("e"));
}
