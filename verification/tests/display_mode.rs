use dais::config::DisplayConfig;
use dais::display_mode::{
    audience_render_size, determine_display_mode, effective_display_mode, fallback_render_size,
    find_by_selector, primary_monitor, secondary_monitor, DisplayMode, MonitorInfo,
};
use dais::display_mode::{
    alternative_monitors, monitor_choice_label, reassignment_outcome, AudienceReassignmentPrompt,
    ReassignmentChoice,
};
use dais::ui::DisplayHints;

fn monitor(id: &str, name: &str, position: (i32, i32), size: (u32, u32), primary: bool) -> MonitorInfo {
    MonitorInfo {
        id: id.into(),
        name: name.into(),
        position,
        size,
        work_area: (position.0, position.1, size.0, size.1 - 40),
        is_primary: primary,
    }
}

fn single_monitor() -> Vec<MonitorInfo> {
    vec![monitor("m1", "Primary", (0, 0), (1920, 1080), true)]
}

fn dual_monitors() -> Vec<MonitorInfo> {
    vec![
        monitor("m1", "Primary", (0, 0), (1920, 1080), true),
        monitor("m2", "DELL U2718Q", (1920, 0), (3840, 2160), false),
    ]
}

fn no_hints() -> DisplayHints {
    DisplayHints { force_single: false, force_screen_share: false }
}

#[test]
fn cli_single_overrides_everything() {
    let hints = DisplayHints { force_single: true, force_screen_share: false };
    let config = DisplayConfig::default();
    let mgr = dual_monitors();
    let result = determine_display_mode(hints, &config, &mgr);
    assert!(matches!(result.mode, DisplayMode::Single));
    assert!(result.audience_reassignment.is_none());
}

#[test]
fn cli_screen_share_overrides_everything() {
    let hints = DisplayHints { force_single: false, force_screen_share: true };
    let config = DisplayConfig::default();
    let mgr = dual_monitors();
    let result = determine_display_mode(hints, &config, &mgr);
    assert!(matches!(result.mode, DisplayMode::ScreenShare));
    assert!(result.audience_reassignment.is_none());
}

#[test]
fn auto_dual_with_two_monitors() {
    let config = DisplayConfig::default();
    let mgr = dual_monitors();
    let result = determine_display_mode(no_hints(), &config, &mgr);
    assert!(matches!(result.mode, DisplayMode::Dual { .. }));
    assert!(result.audience_reassignment.is_none());
    if let DisplayMode::Dual { audience_monitor, .. } = result.mode {
        assert_eq!(audience_monitor.name, "DELL U2718Q");
    }
}

#[test]
fn auto_falls_back_to_single_with_one_monitor() {
    let config = DisplayConfig::default();
    let mgr = single_monitor();
    let result = determine_display_mode(no_hints(), &config, &mgr);
    assert!(matches!(result.mode, DisplayMode::Single));
    assert!(!result.warnings.is_empty());
    assert!(result.audience_reassignment.is_none());
}

#[test]
fn configured_monitor_name_matches() {
    let mut config = DisplayConfig::default();
    config.audience_monitor = "DELL U2718Q".to_string();
    let mgr = dual_monitors();
    let result = determine_display_mode(no_hints(), &config, &mgr);
    assert!(matches!(result.mode, DisplayMode::Dual { .. }));
    assert!(result.audience_reassignment.is_none());
}

#[test]
fn configured_monitor_numeric_selector_matches() {
    let mut config = DisplayConfig::default();
    config.audience_monitor = "2".to_string();
    let mgr = dual_monitors();
    let result = determine_display_mode(no_hints(), &config, &mgr);
    assert!(matches!(result.mode, DisplayMode::Dual { .. }));
    assert!(result.audience_reassignment.is_none());
    if let DisplayMode::Dual { audience_monitor, .. } = result.mode {
        assert_eq!(audience_monitor.name, "DELL U2718Q");
    }
}

#[test]
fn configured_monitor_name_mismatch_falls_back() {
    let mut config = DisplayConfig::default();
    config.audience_monitor = "NONEXISTENT".to_string();
    let mgr = dual_monitors();
    let result = determine_display_mode(no_hints(), &config, &mgr);
    // Should still find the secondary via auto-detection
    assert!(matches!(result.mode, DisplayMode::Dual { .. }));
    assert!(!result.warnings.is_empty()); // warns about mismatch
    let prompt = result.audience_reassignment.expect("missing reassignment prompt");
    assert_eq!(prompt.missing_selector, "NONEXISTENT");
    assert!(prompt.attempted_fallback.is_some());
    assert_eq!(prompt.available_monitors.len(), 2);
}

#[test]
fn configured_monitor_mismatch_on_one_monitor_can_reassign_to_primary() {
    let mut config = DisplayConfig::default();
    config.audience_monitor = "NONEXISTENT".to_string();
    let mgr = single_monitor();
    let result = determine_display_mode(no_hints(), &config, &mgr);

    assert!(matches!(result.mode, DisplayMode::Single));
    let prompt = result.audience_reassignment.expect("missing reassignment prompt");
    assert!(prompt.attempted_fallback.is_none());
    assert_eq!(prompt.available_monitors.len(), 1);
    assert!(prompt.available_monitors[0].is_primary);
}

#[test]
fn config_screen_share_mode() {
    let mut config = DisplayConfig::default();
    config.mode = "screen-share".to_string();
    let mgr = dual_monitors();
    let result = determine_display_mode(no_hints(), &config, &mgr);
    assert!(matches!(result.mode, DisplayMode::ScreenShare));
    assert!(result.audience_reassignment.is_none());
}

#[test]
fn audience_render_size_uses_monitor_size_when_available() {
    let mgr = dual_monitors();
    let mode = DisplayMode::Dual {
        presenter_monitor: mgr[0].copy(),
        audience_monitor: mgr[1].copy(),
    };
    let size = audience_render_size(&mode);
    assert_eq!(size.width, 3840);
    assert_eq!(size.height, 2160);
}

#[test]
fn effective_display_mode_swaps_dual_monitors() {
    let mgr = dual_monitors();
    let mode = DisplayMode::Dual {
        presenter_monitor: mgr[0].copy(),
        audience_monitor: mgr[1].copy(),
    };

    let swapped = effective_display_mode(&mode, true);

    if let DisplayMode::Dual { presenter_monitor, audience_monitor } = swapped {
        assert_eq!(presenter_monitor.id, "m2");
        assert_eq!(audience_monitor.id, "m1");
    } else {
        panic!("dual mode should remain dual after swapping");
    }
}

#[test]
fn audience_render_size_falls_back_when_unavailable() {
    let mode = DisplayMode::ScreenShare;
    let size = audience_render_size(&mode);
    assert_eq!(size.width, fallback_render_size().width);
    assert_eq!(size.height, fallback_render_size().height);
}

#[test]
fn mismatch_warning_names_available_monitors() {
    let mut config = DisplayConfig::default();
    config.audience_monitor = "Beamer".to_string();
    let result = determine_display_mode(no_hints(), &config, &single_monitor());
    assert_eq!(
        result.warnings,
        vec![
            "Configured audience monitor 'Beamer' not found. Available: Primary".to_string(),
            "Single monitor detected — expected dual. Using single mode.".to_string(),
        ]
    );
    let result = determine_display_mode(no_hints(), &config, &dual_monitors());
    assert_eq!(
        result.warnings,
        vec!["Configured audience monitor 'Beamer' not found. Available: Primary, DELL U2718Q"
            .to_string()]
    );
}

#[test]
fn config_mode_is_case_insensitive() {
    let mut config = DisplayConfig::default();
    config.mode = "SINGLE".to_string();
    let result = determine_display_mode(no_hints(), &config, &dual_monitors());
    assert!(matches!(result.mode, DisplayMode::Single));
    config.mode = "Screen_Share".to_string();
    let result = determine_display_mode(no_hints(), &config, &dual_monitors());
    assert!(matches!(result.mode, DisplayMode::ScreenShare));
}

#[test]
fn presenter_stays_off_the_audience_monitor() {
    let mut config = DisplayConfig::default();
    config.audience_monitor = "1".to_string();
    let result = determine_display_mode(no_hints(), &config, &dual_monitors());
    if let DisplayMode::Dual { presenter_monitor, audience_monitor } = result.mode {
        assert_eq!(audience_monitor.id, "m1");
        assert_eq!(presenter_monitor.id, "m2");
    } else {
        panic!("expected dual mode");
    }
    config.presenter_monitor = "DELL U2718Q".to_string();
    config.audience_monitor = "auto".to_string();
    let result = determine_display_mode(no_hints(), &config, &dual_monitors());
    if let DisplayMode::Dual { presenter_monitor, audience_monitor } = result.mode {
        assert_eq!(audience_monitor.id, "m2");
        assert_eq!(presenter_monitor.id, "m1");
    } else {
        panic!("expected dual mode");
    }
}

#[test]
fn selectors_by_position_name_and_id() {
    let mgr = dual_monitors();
    assert_eq!(find_by_selector(&mgr, "2").map(|m| m.id), Some("m2".to_string()));
    assert!(find_by_selector(&mgr, "3").is_none());
    assert_eq!(find_by_selector(&mgr, "0").map(|m| m.id), None);
    assert_eq!(find_by_selector(&mgr, "m1").map(|m| m.name), Some("Primary".to_string()));
    assert_eq!(find_by_selector(&mgr, "DELL U2718Q").map(|m| m.id), Some("m2".to_string()));
    assert_eq!(primary_monitor(&mgr).map(|m| m.id), Some("m1".to_string()));
    assert_eq!(secondary_monitor(&mgr).map(|m| m.id), Some("m2".to_string()));
    assert!(secondary_monitor(&single_monitor()).is_none());
}

fn three_monitors() -> Vec<MonitorInfo> {
    vec![
        monitor("m1", "Primary", (0, 0), (1920, 1080), true),
        monitor("m2", "DELL U2718Q", (1920, 0), (3840, 2160), false),
        monitor("m3", "Projector", (5760, 0), (1280, 720), false),
    ]
}

fn prompt(fallback: Option<MonitorInfo>) -> AudienceReassignmentPrompt {
    AudienceReassignmentPrompt {
        missing_selector: "Beamer".to_string(),
        attempted_fallback: fallback,
        available_monitors: three_monitors(),
    }
}

#[test]
fn reassignment_offers_every_monitor_but_the_fallback() {
    let p = prompt(Some(three_monitors()[1].copy()));
    let ids: Vec<String> = alternative_monitors(&p).iter().map(|m| m.id.clone()).collect();
    assert_eq!(ids, vec!["m1", "m3"]);
    let p = prompt(None);
    assert_eq!(alternative_monitors(&p).len(), 3);
    assert_eq!(monitor_choice_label(&three_monitors()[0]), "Use Primary (m1, primary)");
    assert_eq!(monitor_choice_label(&three_monitors()[2]), "Use Projector (m3)");
}

#[test]
fn reassignment_choices_give_mode_and_toast() {
    let ms = three_monitors();
    let current = DisplayMode::Dual { presenter_monitor: ms[0].copy(), audience_monitor: ms[1].copy() };
    let p = prompt(Some(ms[1].copy()));

    let (mode, toast) = reassignment_outcome(&p, &current, ReassignmentChoice::Use(ms[2].copy()));
    assert_eq!(toast, "Audience moved to 'Projector'");
    match mode {
        DisplayMode::Dual { presenter_monitor, audience_monitor } => {
            assert_eq!(presenter_monitor.id, "m1");
            assert_eq!(audience_monitor.id, "m3");
        }
        _ => panic!("expected dual mode"),
    }

    // Moving the audience onto the presenter's monitor moves the presenter away.
    let (mode, _) = reassignment_outcome(&p, &current, ReassignmentChoice::Use(ms[0].copy()));
    match mode {
        DisplayMode::Dual { presenter_monitor, audience_monitor } => {
            assert_eq!(presenter_monitor.id, "m2");
            assert_eq!(audience_monitor.id, "m1");
        }
        _ => panic!("expected dual mode"),
    }

    let (mode, toast) = reassignment_outcome(&p, &current, ReassignmentChoice::KeepFallback);
    assert_eq!(toast, "Keeping fallback audience monitor 'DELL U2718Q'");
    assert!(matches!(mode, DisplayMode::Dual { .. }));

    let (mode, toast) = reassignment_outcome(&p, &current, ReassignmentChoice::SingleMonitor);
    assert!(matches!(mode, DisplayMode::Single));
    assert_eq!(toast, "Audience reassigned to single-monitor mode");

    let p = prompt(None);
    let (mode, toast) = reassignment_outcome(&p, &DisplayMode::Single, ReassignmentChoice::KeepFallback);
    assert!(matches!(mode, DisplayMode::Single));
    assert_eq!(toast, "Keeping single-monitor mode");
}
