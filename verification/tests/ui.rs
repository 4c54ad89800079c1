use dais::keybindings::{KeyCombo, KeybindingMap};
use dais::slide_group::SlideGroupMeta;
use dais::grouping_editor::groups_to_boundaries;
use dais::keybindings::Action;
use dais::ui::{
    content_hash, format_modifiers, remote_toasts, synced_mode, InputHandler, InputMode,
    KeyCommand, SingleMonitorView, TestInputApp, ToastLevel, ToastManager, UiModes, MAX_EVENTS,
};

#[test]
fn empty_groups_produce_no_boundaries() {
    assert!(groups_to_boundaries(&Vec::new(), 10).is_empty());
}

#[test]
fn single_group_no_boundaries() {
    let groups = vec![SlideGroupMeta { start_page: 0, end_page: 9 }];
    assert!(groups_to_boundaries(&groups, 10).is_empty());
}

#[test]
fn multiple_groups_produce_boundaries() {
    let groups = vec![
        SlideGroupMeta { start_page: 0, end_page: 2 },
        SlideGroupMeta { start_page: 3, end_page: 5 },
        SlideGroupMeta { start_page: 6, end_page: 9 },
    ];
    let boundaries = groups_to_boundaries(&groups, 10);
    assert_eq!(boundaries, vec![3, 6]);
}

#[test]
fn out_of_range_boundaries_filtered() {
    let groups = vec![
        SlideGroupMeta { start_page: 0, end_page: 4 },
        SlideGroupMeta { start_page: 20, end_page: 25 },
    ];
    let boundaries = groups_to_boundaries(&groups, 10);
    assert!(boundaries.is_empty());
}

#[test]
fn boundaries_are_sorted_and_unique() {
    let groups = vec![
        SlideGroupMeta { start_page: 7, end_page: 8 },
        SlideGroupMeta { start_page: 2, end_page: 3 },
        SlideGroupMeta { start_page: 7, end_page: 9 },
        SlideGroupMeta { start_page: 4, end_page: 6 },
    ];
    assert_eq!(groups_to_boundaries(&groups, 10), vec![2, 4, 7]);
}

#[test]
fn toast_push_and_count() {
    let mut mgr = ToastManager::new();
    mgr.push(ToastLevel::Info, "hello");
    mgr.push(ToastLevel::Warning, "warn");
    mgr.push(ToastLevel::Error, "err");
    assert_eq!(mgr.len(), 3);
}

#[test]
fn toasts_can_be_dismissed_and_filtered() {
    let mut mgr = ToastManager::new();
    mgr.push(ToastLevel::Info, "a");
    mgr.push(ToastLevel::Warning, "b");
    mgr.push(ToastLevel::Error, "c");
    mgr.dismiss(1);
    let messages: Vec<&str> = mgr.toasts().iter().map(|t| t.message.as_str()).collect();
    assert_eq!(messages, vec!["a", "c"]);
    mgr.retain_flagged(&vec![false, true]);
    assert_eq!(mgr.len(), 1);
    assert_eq!(mgr.toasts()[0].level, ToastLevel::Error);
}

#[test]
fn single_monitor_view_from_config() {
    assert_eq!(SingleMonitorView::from_config("split"), SingleMonitorView::Split);
    assert_eq!(SingleMonitorView::from_config("SPLIT"), SingleMonitorView::Split);
    assert_eq!(SingleMonitorView::from_config(" split"), SingleMonitorView::Hud);
    assert_eq!(SingleMonitorView::from_config("hud"), SingleMonitorView::Hud);
}

#[test]
fn input_mode_follows_state_except_during_jump() {
    let modes = UiModes { overview_visible: false, ink_active: true, laser_active: true, notes_editing: false };
    assert_eq!(synced_mode(InputMode::Normal, modes), InputMode::Ink);
    assert_eq!(synced_mode(InputMode::JumpToSlide, modes), InputMode::JumpToSlide);
    let modes = UiModes { notes_editing: true, ..modes };
    assert_eq!(synced_mode(InputMode::Laser, modes), InputMode::NotesEdit);
    let modes = UiModes { overview_visible: true, ..modes };
    assert_eq!(synced_mode(InputMode::Ink, modes), InputMode::Overview);
    assert_eq!(synced_mode(InputMode::Overview, UiModes::default()), InputMode::Normal);
}

#[test]
fn key_test_console_records_newest_first() {
    let mut app = TestInputApp::new(KeybindingMap::from_config(&Vec::new()));
    app.record_key(KeyCombo::parse("Right").unwrap());
    app.record_key(KeyCombo::parse("Ctrl+Shift+k").unwrap());
    let events = app.events();
    assert_eq!(events.len(), 2);
    assert_eq!(events[0].key_name, "k");
    assert_eq!(events[0].modifiers, "Ctrl+Shift");
    assert_eq!(events[0].action, "(none)");
    assert_eq!(events[1].action, "next_slide");
    assert_eq!(events[1].modifiers, "(none)");
    for _ in 0..30 {
        app.record_key(KeyCombo::parse("b").unwrap());
    }
    assert_eq!(app.events().len(), MAX_EVENTS);
    assert_eq!(app.events()[0].action, "toggle_blackout");
}

#[test]
fn modifier_text() {
    assert_eq!(format_modifiers(false, false, false), "(none)");
    assert_eq!(format_modifiers(true, false, true), "Ctrl+Alt");
    assert_eq!(format_modifiers(false, true, true), "Shift+Alt");
    assert_eq!(format_modifiers(true, true, true), "Ctrl+Shift+Alt");
}

#[test]
fn remote_toast_messages() {
    let urls = vec!["http://127.0.0.1:4317/".to_string()];
    assert_eq!(remote_toasts(Some(&urls)), vec!["Remote control: http://127.0.0.1:4317/"]);
    assert!(remote_toasts(None).is_empty());
}

#[test]
fn content_hash_is_a_function_of_the_text() {
    assert_eq!(content_hash("= Title"), content_hash("= Title"));
    assert_ne!(content_hash("= Title"), content_hash("= Title!"));
}

fn key(name: &str) -> KeyCombo {
    KeyCombo { key: name.to_string(), shift: false, ctrl: false, alt: false }
}

fn handler() -> InputHandler {
    InputHandler::new(KeybindingMap::from_config(&Vec::new()))
}

#[test]
fn typed_slide_number_jumps_on_enter() {
    let mut input = handler();
    assert_eq!(input.handle_key(&key("g")), None);
    assert_eq!(input.mode(), InputMode::JumpToSlide);
    assert_eq!(input.handle_key(&key("num1")), None);
    assert_eq!(input.handle_key(&key("num2")), None);
    assert_eq!(input.jump_buffer(), "12");
    assert_eq!(input.handle_key(&key("Enter")), Some(KeyCommand::GoToSlide(11)));
    assert_eq!(input.mode(), InputMode::Normal);
    assert_eq!(input.jump_buffer(), "");
}

#[test]
fn jump_to_slide_zero_goes_to_first_and_empty_entry_does_nothing() {
    let mut input = handler();
    input.handle_key(&key("g"));
    input.handle_key(&key("num0"));
    assert_eq!(input.handle_key(&key("Enter")), Some(KeyCommand::GoToSlide(0)));
    input.handle_key(&key("g"));
    assert_eq!(input.handle_key(&key("Enter")), None);
    assert_eq!(input.mode(), InputMode::Normal);
}

#[test]
fn escape_or_another_key_drops_the_typed_number() {
    let mut input = handler();
    input.handle_key(&key("g"));
    input.handle_key(&key("num3"));
    assert_eq!(input.handle_key(&key("Escape")), None);
    assert_eq!(input.mode(), InputMode::Normal);
    assert_eq!(input.jump_buffer(), "");
    input.handle_key(&key("g"));
    input.handle_key(&key("num3"));
    assert_eq!(input.handle_key(&key("Right")), Some(KeyCommand::Run(Action::NextSlide)));
    assert_eq!(input.mode(), InputMode::Normal);
    assert_eq!(input.jump_buffer(), "");
}

#[test]
fn bound_keys_run_their_actions() {
    let mut input = handler();
    assert_eq!(input.handle_key(&key("Right")), Some(KeyCommand::Run(Action::NextSlide)));
    assert_eq!(input.handle_key(&key("q")), Some(KeyCommand::Run(Action::Quit)));
    assert_eq!(input.handle_key(&key("num7")), None);
    assert_eq!(input.mode(), InputMode::Normal);
}

#[test]
fn sync_follows_ui_modes_but_not_while_jumping() {
    let mut input = handler();
    input.sync(UiModes { overview_visible: false, ink_active: true, laser_active: false, notes_editing: false });
    assert_eq!(input.mode(), InputMode::Ink);
    input.handle_key(&key("g"));
    input.sync(UiModes { overview_visible: true, ink_active: false, laser_active: false, notes_editing: false });
    assert_eq!(input.mode(), InputMode::JumpToSlide);
}

#[test]
fn notes_editor_takes_only_escape_save_and_leave() {
    let input = handler();
    assert_eq!(input.handle_notes_editor_key(&key("Escape")), Some(KeyCommand::Run(Action::ToggleNotesEdit)));
    assert_eq!(
        input.handle_notes_editor_key(&KeyCombo::parse("Ctrl+s").unwrap()),
        Some(KeyCommand::Run(Action::SaveSidecar))
    );
    assert_eq!(
        input.handle_notes_editor_key(&KeyCombo::parse("Ctrl+n").unwrap()),
        Some(KeyCommand::Run(Action::ToggleNotesEdit))
    );
    // Keys bound to other actions type text instead.
    assert_eq!(input.handle_notes_editor_key(&key("Right")), None);
    assert_eq!(input.handle_notes_editor_key(&key("b")), None);
}

#[test]
fn presentation_mode_flips_the_single_monitor_view() {
    assert_eq!(SingleMonitorView::Hud.active(false), SingleMonitorView::Hud);
    assert_eq!(SingleMonitorView::Hud.active(true), SingleMonitorView::Split);
    assert_eq!(SingleMonitorView::Split.active(true), SingleMonitorView::Hud);
    assert_eq!(SingleMonitorView::Split.active(false), SingleMonitorView::Split);
    assert_eq!(dais::ui::repaint_after_millis(true), 100);
    assert_eq!(dais::ui::repaint_after_millis(false), 250);
}

#[test]
fn toast_auto_expires() {
    let mut mgr = ToastManager::new();
    mgr.push_with_duration(ToastLevel::Info, "brief", std::time::Duration::from_millis(0));
    // Duration is zero so the toast is already expired.
    mgr.expire();
    assert_eq!(mgr.len(), 0);
}

#[test]
fn toasts_expire_by_age_and_duration() {
    let mut mgr = ToastManager::new();
    mgr.push(ToastLevel::Info, "four seconds");
    mgr.push_with_duration(ToastLevel::Warning, "one second", std::time::Duration::from_secs(1));
    mgr.push(ToastLevel::Error, "also four");
    assert_eq!(mgr.toasts()[0].duration, std::time::Duration::from_secs(4));
    mgr.expire_with_ages(&vec![3_999_999_999, 1_000_000_000, 4_000_000_000]);
    assert_eq!(mgr.len(), 1);
    assert_eq!(mgr.toasts()[0].message, "four seconds");
    assert!(dais::ui::toast_still_shown(0, 1));
    assert!(!dais::ui::toast_still_shown(1, 1));
    mgr.expire();
    assert_eq!(mgr.len(), 1);
}

#[test]
fn typed_slide_number_expires_after_three_seconds() {
    assert!(!dais::ui::jump_expired(3_000_000_000));
    assert!(dais::ui::jump_expired(3_000_000_001));
    assert!(!dais::ui::jump_expired(0));
}
