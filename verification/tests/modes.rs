use std::collections::HashMap;

use dais::config::DisplayConfig;
use dais::modes::PresentationModes;
use dais::navigation::SlideNavigation;
use dais::session::QuitState;
use dais::slide_group::build_slide_groups;
use dais::style::{ink_color_presets, next_ink_color, starting_pen_color, PointerStyle};
use dais::timer::{timer_from_config, TimerMode};
use dais::config::TimerConfig;

fn navigation(total_pages: usize) -> SlideNavigation {
    let groups = build_slide_groups(total_pages, &Vec::new(), &HashMap::new());
    SlideNavigation::new(total_pages, groups)
}

#[test]
fn toggle_screen_share() {
    let mut modes = PresentationModes::new();
    assert!(!modes.screen_share_mode);
    modes.toggle_screen_share();
    assert!(modes.screen_share_mode);
}

#[test]
fn toggle_presentation_mode() {
    let mut state = QuitState::new();
    assert!(!state.presentation_mode);
    assert!(!state.on_command(false));
    state.toggle_presentation_mode();
    assert!(state.presentation_mode);
    assert!(!state.on_command(false));
    state.toggle_presentation_mode();
    assert!(!state.presentation_mode);
}

#[test]
fn laser_and_ink_mutually_exclusive() {
    let mut modes = PresentationModes::new();
    assert!(modes.laser_active);

    modes.toggle_laser();
    assert!(!modes.laser_active);

    modes.toggle_ink();
    assert!(modes.ink_active);
    assert!(!modes.laser_active);

    modes.toggle_laser();
    assert!(modes.laser_active);
    assert!(!modes.ink_active);
}

#[test]
fn cycle_laser_style_rotates_styles() {
    let mut modes = PresentationModes::new();
    assert_eq!(modes.pointer_style, PointerStyle::Dot);

    modes.cycle_laser_style();
    assert_eq!(modes.pointer_style, PointerStyle::Minimal);

    modes.cycle_laser_style();
    assert_eq!(modes.pointer_style, PointerStyle::Crosshair);

    modes.cycle_laser_style();
    assert_eq!(modes.pointer_style, PointerStyle::Arrow);

    modes.cycle_laser_style();
    assert_eq!(modes.pointer_style, PointerStyle::Ring);

    modes.cycle_laser_style();
    assert_eq!(modes.pointer_style, PointerStyle::Bullseye);

    modes.cycle_laser_style();
    assert_eq!(modes.pointer_style, PointerStyle::Highlight);

    modes.cycle_laser_style();
    assert_eq!(modes.pointer_style, PointerStyle::Dot);
}

#[test]
fn spotlight_position_ignored_when_inactive() {
    let mut modes = PresentationModes::new();
    modes.set_spotlight_position();
    assert!(!modes.spotlight_shown);
}

#[test]
fn spotlight_position_follows_toggle() {
    let mut modes = PresentationModes::new();
    modes.toggle_spotlight();
    modes.set_spotlight_position();
    assert!(modes.spotlight_active);
    assert!(modes.spotlight_shown);

    modes.toggle_spotlight();
    assert!(!modes.spotlight_active);
    assert!(!modes.spotlight_shown);
}

#[test]
fn zoom_region_follows_toggle() {
    let mut modes = PresentationModes::new();
    modes.set_zoom_region();
    assert!(!modes.zoom_shown);
    modes.toggle_zoom();
    modes.set_zoom_region();
    assert!(modes.zoom_active);
    assert!(modes.zoom_shown);

    modes.toggle_zoom();
    assert!(!modes.zoom_active);
    assert!(!modes.zoom_shown);
}

#[test]
fn pointer_is_set_while_laser_is_on() {
    let mut modes = PresentationModes::new();
    modes.set_pointer_position();
    assert!(modes.pointer_shown);
    modes.toggle_laser();
    assert!(!modes.pointer_shown);
    modes.set_pointer_position();
    assert!(!modes.pointer_shown);
}

#[test]
fn toggle_overview() {
    let mut state = QuitState::new();
    assert!(!state.overview_visible);
    state.toggle_overview();
    assert!(state.overview_visible);
    state.toggle_overview();
    assert!(!state.overview_visible);
}

#[test]
fn notes_can_be_edited_inline() {
    let mut modes = PresentationModes::new();
    let mut nav = navigation(3);

    modes.toggle_notes_edit();
    nav.set_current_slide_notes("Hello **markdown**");

    assert!(modes.notes_editing);
    assert_eq!(nav.current_notes.as_deref(), Some("Hello **markdown**"));
    assert_eq!(nav.slide_groups[0].notes.as_deref(), Some("Hello **markdown**"));

    nav.set_current_slide_notes("");
    assert_eq!(nav.current_notes, None);
    assert_eq!(nav.slide_groups[0].notes, None);
}

#[test]
fn hiding_notes_panel_ends_editing() {
    let mut modes = PresentationModes::new();
    assert!(modes.notes_visible);
    modes.toggle_notes_edit();
    assert!(modes.notes_editing);
    modes.toggle_notes_panel();
    assert!(!modes.notes_visible);
    assert!(!modes.notes_editing);
    modes.toggle_notes_edit();
    assert!(modes.notes_visible);
    assert!(modes.notes_editing);
}

#[test]
fn toggle_whiteboard() {
    let mut modes = PresentationModes::new();
    let mut nav = navigation(5);
    assert!(!modes.whiteboard_active);

    modes.toggle_whiteboard(&mut nav);
    assert!(modes.whiteboard_active);
    assert!(modes.ink_active); // auto-activates ink
    assert!(!modes.laser_active);

    modes.toggle_whiteboard(&mut nav);
    assert!(!modes.whiteboard_active);
}

#[test]
fn whiteboard_exits_text_box_context() {
    let mut modes = PresentationModes::new();
    let mut nav = navigation(1);

    modes.toggle_text_box_mode();
    modes.place_text_box();
    assert!(modes.text_box_mode);
    assert!(modes.selected_text_box.is_some());

    modes.toggle_whiteboard(&mut nav);

    assert!(modes.whiteboard_active);
    assert!(!modes.text_box_mode);
    assert!(modes.selected_text_box.is_none());
    assert!(!modes.text_box_editing);
}

#[test]
fn whiteboard_and_blackout_mutually_exclusive() {
    let mut modes = PresentationModes::new();
    let mut nav = navigation(5);

    modes.toggle_whiteboard(&mut nav);
    assert!(modes.whiteboard_active);

    modes.toggle_blackout(&mut nav);
    assert!(nav.blacked_out);
    assert!(!modes.whiteboard_active);

    modes.toggle_whiteboard(&mut nav);
    assert!(modes.whiteboard_active);
    assert!(!nav.blacked_out);
}

#[test]
fn text_box_ids_count_up_and_selection_follows() {
    let mut modes = PresentationModes::new();
    assert_eq!(modes.place_text_box(), 1);
    assert_eq!(modes.place_text_box(), 2);
    assert_eq!(modes.selected_text_box, Some(2));
    assert!(modes.text_box_editing);

    modes.select_text_box(1);
    assert_eq!(modes.selected_text_box, Some(1));
    assert!(!modes.text_box_editing);

    modes.delete_text_box(2);
    assert_eq!(modes.selected_text_box, Some(1));
    modes.begin_text_box_edit(1);
    assert!(modes.text_box_editing);
    modes.delete_text_box(1);
    assert_eq!(modes.selected_text_box, None);
    assert!(!modes.text_box_editing);

    modes.select_text_box(2);
    modes.deselect_text_box();
    assert_eq!(modes.selected_text_box, None);
}

#[test]
fn text_box_mode_turns_off_other_aids() {
    let mut modes = PresentationModes::new();
    modes.set_pointer_position();
    modes.toggle_text_box_mode();
    assert!(modes.text_box_mode);
    assert!(!modes.laser_active);
    assert!(!modes.ink_active);
    assert!(!modes.pointer_shown);

    modes.begin_text_box_edit(7);
    modes.toggle_text_box_mode();
    assert!(!modes.text_box_mode);
    assert_eq!(modes.selected_text_box, None);
    assert!(!modes.text_box_editing);
}

#[test]
fn single_display_starts_without_laser() {
    let mut display = DisplayConfig::default();
    display.mode = "single".to_string();
    let modes = PresentationModes::for_config(&display, "ring");
    assert!(!modes.laser_active);
    assert_eq!(modes.pointer_style, PointerStyle::Ring);

    let modes = PresentationModes::for_config(&DisplayConfig::default(), "nonsense");
    assert!(modes.laser_active);
    assert_eq!(modes.pointer_style, PointerStyle::Dot);
}

#[test]
fn configured_timer_durations() {
    let minute: u128 = 60_000_000_000;

    let t = timer_from_config(&TimerConfig::default());
    assert_eq!(t.mode, TimerMode::Elapsed);
    assert_eq!(t.duration, None);
    assert_eq!(t.warning_threshold, None);
    assert_eq!(t.elapsed, 0);
    assert!(!t.running);

    let countdown = TimerConfig {
        mode: TimerMode::Countdown,
        duration_minutes: None,
        warning_minutes: Some(5),
        overrun_color: true,
    };
    let t = timer_from_config(&countdown);
    assert_eq!(t.duration, Some(20 * minute));
    assert_eq!(t.warning_threshold, Some(5 * minute));

    let elapsed_limit = TimerConfig {
        mode: TimerMode::Elapsed,
        duration_minutes: Some(45),
        warning_minutes: Some(10),
        overrun_color: false,
    };
    let t = timer_from_config(&elapsed_limit);
    assert_eq!(t.duration, Some(45 * minute));
    assert_eq!(t.warning_threshold, Some(10 * minute));

    let no_limit = TimerConfig {
        mode: TimerMode::Elapsed,
        duration_minutes: None,
        warning_minutes: Some(10),
        overrun_color: true,
    };
    let t = timer_from_config(&no_limit);
    assert_eq!(t.duration, None);
    assert_eq!(t.warning_threshold, None);
}

#[test]
fn ink_presets_pad_with_fallbacks() {
    let presets = ink_color_presets(&vec!["#FF000080".to_string()]);
    assert_eq!(
        presets,
        vec![[255, 0, 0, 128], [220, 30, 30, 255], [30, 100, 220, 255], [30, 180, 30, 255]]
    );
    assert_eq!(starting_pen_color(&presets), [255, 0, 0, 128]);

    let presets = ink_color_presets(&vec!["not a color".to_string(), "00FF0080".to_string()]);
    assert_eq!(presets[0], [0, 255, 0, 128]);
    assert_eq!(presets.len(), 4);

    let five: Vec<String> =
        vec!["#010101", "#020202", "#030303", "#040404", "#050505"].into_iter().map(String::from).collect();
    let presets = ink_color_presets(&five);
    assert_eq!(presets.len(), 5);
    assert_eq!(presets[4], [5, 5, 5, 255]);

    assert_eq!(ink_color_presets(&Vec::new())[0], [220, 30, 30, 255]);
    assert_eq!(starting_pen_color(&Vec::new()), [255, 0, 0, 255]);
}

#[test]
fn cycle_ink_color_steps_through_presets() {
    let presets = ink_color_presets(&Vec::new());
    assert_eq!(next_ink_color(&presets, [220, 30, 30, 255]), [30, 100, 220, 255]);
    assert_eq!(next_ink_color(&presets, [220, 200, 0, 255]), [220, 30, 30, 255]);
    // A color that is not a preset moves to the preset after the first.
    assert_eq!(next_ink_color(&presets, [1, 2, 3, 4]), [30, 100, 220, 255]);
    assert_eq!(next_ink_color(&Vec::new(), [1, 2, 3, 4]), [1, 2, 3, 4]);
}
