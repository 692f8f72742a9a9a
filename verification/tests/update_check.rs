use arcthumb::update_check::{
    after_background_fetch, after_skip_check, begin_background_check, fill_placeholder,
    BackgroundStep, ManualCheck, ManualGuard, ManualReport,
};

#[test]
fn quiet_check_stops_unless_there_is_something_to_show() {
    assert!(matches!(begin_background_check::<u8>(false), BackgroundStep::Stop));
    assert!(matches!(begin_background_check::<u8>(true), BackgroundStep::Fetch));
    assert!(matches!(after_background_fetch::<u8>(None), BackgroundStep::Stop));
    assert!(matches!(after_background_fetch(Some(3)), BackgroundStep::CheckSkipped(3)));
    assert!(matches!(after_skip_check(3, true), BackgroundStep::Stop));
    assert!(matches!(after_skip_check(3, false), BackgroundStep::Show(3)));
}

#[test]
fn repeated_clicks_are_dropped_while_a_check_runs() {
    let mut guard = ManualGuard::new();
    assert!(guard.begin());
    assert!(!guard.begin());
    let report = guard.finish(ManualCheck::Available(5), "{}", "1.0", "failed");
    assert!(matches!(report, ManualReport::Update(5)));
    assert!(guard.begin());
}

#[test]
fn every_outcome_of_a_manual_check_is_reported() {
    let mut guard = ManualGuard::new();
    guard.begin();
    match guard.finish::<u8>(ManualCheck::UpToDate, "Version {} is current.", "1.2.3", "no") {
        ManualReport::Info(text) => assert_eq!(text, "Version 1.2.3 is current."),
        _ => panic!("expected a message"),
    }
    guard.begin();
    match guard.finish::<u8>(ManualCheck::Failed, "x", "1.2.3", "Could not check.") {
        ManualReport::Error(text) => assert_eq!(text, "Could not check."),
        _ => panic!("expected an error"),
    }
}

#[test]
fn only_the_first_placeholder_is_filled() {
    for template in ["{}", "a{}b{}c", "none", "", "{", "}{", "{{}}", "日{}本"] {
        assert_eq!(fill_placeholder(template, "V{}"), template.replacen("{}", "V{}", 1));
    }
}
