use std::path::{Path, PathBuf};

use dais::config::{
    default_clicker_profile, normalized_sidecar_format, project_config_path, ClickerConfig,
    DisplayConfig, OptionalU32Value, TimerConfig,
};
use dais::platform::{wstr_to_string, MacOsMonitorManager, WindowsMonitorManager, X11MonitorManager};
use dais::timer::TimerMode;

#[test]
fn config_defaults() {
    let display = DisplayConfig::default();
    assert_eq!(display.mode, "dual");
    assert_eq!(display.audience_monitor, "auto");
    let timer = TimerConfig::default();
    assert_eq!(timer.mode, TimerMode::Elapsed);
    assert_eq!(timer.duration_minutes, None);
    assert!(timer.overrun_color);
    assert_eq!(ClickerConfig::default().profile, "default");
    assert_eq!(default_clicker_profile().len(), 5);
}

#[test]
fn optional_values_clear_or_set() {
    assert_eq!(OptionalU32Value::Value(45).into_option(), Some(45));
    assert_eq!(OptionalU32Value::Null.into_option(), None);
}

#[test]
fn sidecar_format_names() {
    assert_eq!(normalized_sidecar_format("DAIS"), "dais");
    assert_eq!(normalized_sidecar_format("pdfpc"), "pdfpc");
    assert_eq!(normalized_sidecar_format("other"), "pdfpc");
}

#[test]
fn project_config_lives_next_to_the_pdf() {
    assert_eq!(
        project_config_path(Path::new("talks/deck.pdf")),
        Some(PathBuf::from("talks/dais.toml"))
    );
    assert_eq!(project_config_path(Path::new("/")), None);
}

#[test]
fn custom_clicker_profile_is_used() {
    let clicker = ClickerConfig {
        profile: "spotlight".to_string(),
        profiles: vec![(
            "spotlight".to_string(),
            vec![("Escape".to_string(), "toggle_blackout".to_string())],
        )],
    };
    assert_eq!(
        clicker.active_clicker_profile(),
        vec![("Escape".to_string(), "toggle_blackout".to_string())]
    );
}

#[test]
fn utf16_names_stop_at_nul_and_replace_lone_surrogates() {
    let name: Vec<u16> = "Dell U2720Q".encode_utf16().chain([0, 65, 66]).collect();
    assert_eq!(wstr_to_string(&name), "Dell U2720Q");
    let smile: Vec<u16> = "a😀b".encode_utf16().collect();
    assert_eq!(wstr_to_string(&smile), "a😀b");
    assert_eq!(wstr_to_string(&[0xD800, 0x41, 0xDC00]), "\u{FFFD}A\u{FFFD}");
    let _ = (X11MonitorManager::new(), MacOsMonitorManager::default(), WindowsMonitorManager::new());
}

#[test]
fn partial_config_overrides_selected_fields() {
    let mut display = dais::config::DisplayConfig::default();
    let mut timer = dais::config::TimerConfig::default();
    dais::config::apply_partial_display(
        &mut display,
        dais::config::PartialDisplayConfig {
            mode: Some("screen-share".to_string()),
            audience_monitor: Some("Projector".to_string()),
            presenter_monitor: None,
        },
    );
    dais::config::apply_partial_timer(
        &mut timer,
        dais::config::PartialTimerConfig {
            mode: Some(dais::timer::TimerMode::Countdown),
            duration_minutes: Some(dais::config::OptionalU32Value::Value(45)),
            warning_minutes: Some(dais::config::OptionalU32Value::Value(10)),
            overrun_color: Some(false),
        },
    );

    assert_eq!(display.mode, "screen-share");
    assert_eq!(display.audience_monitor, "Projector");
    assert_eq!(display.presenter_monitor, "auto");
    assert_eq!(timer.mode, dais::timer::TimerMode::Countdown);
    assert_eq!(timer.duration_minutes, Some(45));
    assert_eq!(timer.warning_minutes, Some(10));
    assert!(!timer.overrun_color);
}

#[test]
fn partial_config_can_clear_optional_timer_values() {
    let mut timer = dais::config::TimerConfig::default();
    timer.duration_minutes = Some(20);
    timer.warning_minutes = Some(5);

    dais::config::apply_partial_timer(
        &mut timer,
        dais::config::PartialTimerConfig {
            mode: None,
            duration_minutes: Some(dais::config::OptionalU32Value::Null),
            warning_minutes: Some(dais::config::OptionalU32Value::Null),
            overrun_color: None,
        },
    );

    assert_eq!(timer.duration_minutes, None);
    assert_eq!(timer.warning_minutes, None);
}

#[test]
fn sidecar_format_layer_replaces_only_when_given() {
    let mut format = "dais".to_string();
    dais::config::apply_partial_sidecar_format(&mut format, None);
    assert_eq!(format, "dais");
    dais::config::apply_partial_sidecar_format(&mut format, Some("pdfpc".to_string()));
    assert_eq!(format, "pdfpc");
}
