use arcthumb::command::{
    gui_failure_text, install_report, mode_for, uninstall_report, Mode, EXIT_GUI_FAILED,
};
use arcthumb::text::{decimal_text, join, same_text};

#[test]
fn arguments_choose_the_mode() {
    assert_eq!(mode_for(Some("--install")), Mode::Install);
    assert_eq!(mode_for(Some("--uninstall")), Mode::Uninstall);
    assert_eq!(mode_for(Some("--INSTALL")), Mode::Gui);
    assert_eq!(mode_for(Some("")), Mode::Gui);
    assert_eq!(mode_for(None), Mode::Gui);
    assert_eq!(EXIT_GUI_FAILED, 5);
}

#[test]
fn exit_codes_are_reported_in_words() {
    let ok = install_report(0);
    assert_eq!(ok.text, "ArcThumb installed successfully.");
    assert!(!ok.is_error);
    for (code, text) in [
        (2, "Error: arcthumb.dll not found."),
        (3, "Error: CLSID registration failed."),
        (4, "Error: extension binding failed."),
        (7, "Error: unknown failure (exit code 7)."),
        (-12, "Error: unknown failure (exit code -12)."),
        (i32::MIN, "Error: unknown failure (exit code -2147483648)."),
    ] {
        let report = install_report(code);
        assert_eq!(report.text, text);
        assert!(report.is_error);
    }
    assert_eq!(uninstall_report().text, "ArcThumb uninstalled.");
    assert!(!uninstall_report().is_error);
}

#[test]
fn window_failures_name_the_reason() {
    assert_eq!(gui_failure_text("No window.", "no GPU"), "No window.\n\nno GPU");
}

#[test]
fn numbers_are_written_in_decimal() {
    for n in [0u64, 9, 10, 99, 100, 1_048_576, u64::MAX] {
        assert_eq!(decimal_text(n), n.to_string());
    }
}

#[test]
fn texts_are_compared_and_joined() {
    assert!(same_text("", ""));
    assert!(same_text("日本", "日本"));
    assert!(!same_text("a", "A"));
    assert!(!same_text("ab", "a"));
    assert_eq!(join("ab", "日"), "ab日");
}
