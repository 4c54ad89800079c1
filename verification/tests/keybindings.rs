use dais::ui::{help_key_text, help_sections};
use dais::config::ClickerConfig;
use dais::keybindings::{Action, KeyCombo, KeybindingMap};
use dais::ui::HelpOverlay;

fn user(entries: &[(&str, &[&str])]) -> Vec<(String, Vec<String>)> {
    entries
        .iter()
        .map(|(name, keys)| (name.to_string(), keys.iter().map(|k| k.to_string()).collect()))
        .collect()
}

#[test]
fn parse_simple_key() {
    let combo = KeyCombo::parse("Right").unwrap();
    assert_eq!(combo.key, "Right");
    assert!(!combo.shift);
    assert!(!combo.ctrl);
}

#[test]
fn parse_shift_combo() {
    let combo = KeyCombo::parse("Shift+Right").unwrap();
    assert_eq!(combo.key, "Right");
    assert!(combo.shift);
    assert!(!combo.ctrl);
}

#[test]
fn parse_ctrl_combo() {
    let combo = KeyCombo::parse("Ctrl+s").unwrap();
    assert_eq!(combo.key, "s");
    assert!(!combo.shift);
    assert!(combo.ctrl);
}

#[test]
fn parse_single_character_keys_case_insensitively() {
    let lower = KeyCombo::parse("Ctrl+l").unwrap();
    let upper = KeyCombo::parse("Ctrl+L").unwrap();

    assert_eq!(lower, upper);
    assert_eq!(upper.key, "l");
}

#[test]
fn default_bindings_load() {
    let map = KeybindingMap::from_config(&Vec::new());
    let right = KeyCombo::parse("Right").unwrap();
    assert_eq!(map.lookup(&right), Some(Action::NextSlide));
}

#[test]
fn user_override_replaces_defaults() {
    let map = KeybindingMap::from_config(&user(&[("next_slide", &["x"])]));

    // "x" should now be next_slide
    let x = KeyCombo::parse("x").unwrap();
    assert_eq!(map.lookup(&x), Some(Action::NextSlide));

    // Default "Right" should no longer be bound to next_slide
    let right = KeyCombo::parse("Right").unwrap();
    assert_ne!(map.lookup(&right), Some(Action::NextSlide));
}

#[test]
fn display_name_simple_key() {
    let combo = KeyCombo::parse("Right").unwrap();
    assert_eq!(combo.display_name(), "Right");
}

#[test]
fn display_name_modifier_combo() {
    let combo = KeyCombo::parse("Ctrl+Shift+s").unwrap();
    assert_eq!(combo.display_name(), "Ctrl+Shift+S");
}

#[test]
fn display_name_single_char_uppercase() {
    let combo = KeyCombo::parse("g").unwrap();
    assert_eq!(combo.display_name(), "G");
}

#[test]
fn action_bindings_returns_all_actions() {
    let map = KeybindingMap::from_config(&Vec::new());
    let bindings = map.action_bindings();
    assert_eq!(bindings.len(), Action::all().len());
}

#[test]
fn cycle_laser_style_accepts_uppercase_config_binding() {
    let map = KeybindingMap::from_config(&user(&[("cycle_laser_style", &["Ctrl+L"])]));

    let live_key = KeyCombo::parse("Ctrl+l").unwrap();
    assert_eq!(map.lookup(&live_key), Some(Action::CycleLaserStyle));
}

#[test]
fn action_bindings_reflects_overrides() {
    let map = KeybindingMap::from_config(&user(&[("quit", &["x"])]));
    let bindings = map.action_bindings();

    let quit_keys: Vec<String> =
        bindings.iter().find(|(a, _)| *a == Action::Quit).unwrap().1.clone();
    assert_eq!(quit_keys, vec!["X"]);
}

#[test]
fn keybindings_every_action_has_description_and_group() {
    for action in Action::all() {
        assert!(!action.description().is_empty(), "{action:?} missing description");
        assert!(!action.group().is_empty(), "{action:?} missing group");
    }
}

#[test]
fn toggle_flips_visibility() {
    let mut overlay = HelpOverlay::new();
    assert!(!overlay.visible);
    assert!(overlay.toggle());
    assert!(overlay.visible);
    assert!(!overlay.toggle());
    assert!(!overlay.visible);
}

#[test]
fn action_bindings_covers_all_actions() {
    let map = KeybindingMap::from_config(&Vec::new());
    let bindings = map.action_bindings();
    assert_eq!(bindings.len(), Action::all().len());
}

#[test]
fn help_overlay_every_action_has_description_and_group() {
    for action in Action::all() {
        assert!(!action.description().is_empty(), "{action:?} missing description");
        assert!(!action.group().is_empty(), "{action:?} missing group");
    }
}

#[test]
fn clicker_profile_overlays_bindings_on_user_keys() {
    let clicker = ClickerConfig {
        profile: "custom".to_string(),
        profiles: vec![(
            "custom".to_string(),
            vec![("Escape".to_string(), "toggle_blackout".to_string())],
        )],
    };
    let mut map = KeybindingMap::from_config(&Vec::new());
    map.apply_clicker_profile(&clicker.active_clicker_profile());
    let escape = KeyCombo::parse("Escape").unwrap();
    assert_eq!(map.lookup(&escape), Some(Action::ToggleBlackout));
}

#[test]
fn default_clicker_profile_keeps_page_keys() {
    let clicker = ClickerConfig::default();
    let mut map = KeybindingMap::from_config(&Vec::new());
    map.apply_clicker_profile(&clicker.active_clicker_profile());
    let f5 = KeyCombo::parse("F5").unwrap();
    assert_eq!(map.lookup(&f5), Some(Action::TogglePresentationMode));
    let page_down = KeyCombo::parse("PageDown").unwrap();
    assert_eq!(map.lookup(&page_down), Some(Action::NextSlide));
}

#[test]
fn unknown_clicker_profile_falls_back_to_default() {
    let clicker = ClickerConfig { profile: "missing".to_string(), profiles: Vec::new() };
    assert_eq!(clicker.active_clicker_profile(), dais::config::default_clicker_profile());
}

#[test]
fn config_names_round_trip() {
    for action in Action::all() {
        assert_eq!(Action::from_config_name(action.config_name()), Some(action));
    }
    assert_eq!(Action::from_config_name("no_such_action"), None);
}

#[test]
fn unknown_user_action_is_ignored() {
    let map = KeybindingMap::from_config(&user(&[("no_such_action", &["x"])]));
    let x = KeyCombo::parse("x").unwrap();
    assert_eq!(map.lookup(&x), Some(Action::ToggleTextBoxMode));
}

#[test]
fn modifier_names_are_case_insensitive_and_alias() {
    let combo = KeyCombo::parse(" cmd + OPTION + shift + Left ").unwrap();
    assert_eq!(combo.key, "Left");
    assert!(combo.ctrl && combo.alt && combo.shift);
    assert_eq!(combo.display_name(), "Ctrl+Alt+Shift+Left");
    assert!(KeyCombo::parse("Ctrl+Shift").is_none());
}

#[test]
fn quit_defaults_to_two_keys_sorted() {
    let map = KeybindingMap::from_config(&Vec::new());
    let bindings = map.action_bindings();
    let quit = bindings.iter().find(|(a, _)| *a == Action::Quit).unwrap().1.clone();
    assert_eq!(quit, vec!["Escape", "Q"]);
}

#[test]
fn help_rows_join_keys_with_slashes() {
    assert_eq!(help_key_text(&Vec::new()), "\u{2014}");
    assert_eq!(help_key_text(&vec!["Right".to_string()]), "Right");
    assert_eq!(
        help_key_text(&vec!["Right".to_string(), "Space".to_string(), "PageDown".to_string()]),
        "Right  /  Space  /  PageDown"
    );
}

#[test]
fn help_sections_group_consecutive_rows() {
    let map = KeybindingMap::from_config(&Vec::new());
    let bindings = map.action_bindings();
    let sections = help_sections(&bindings);
    assert_eq!(sections[0].0, "Navigation");
    assert_eq!(sections[0].1, 0);
    assert_eq!(sections.last().unwrap().2, bindings.len());
    for window in sections.windows(2) {
        assert_eq!(window[0].2, window[1].1);
        assert_ne!(window[0].0, window[1].0);
    }
    for (group, start, end) in &sections {
        for row in &bindings[*start..*end] {
            assert_eq!(row.0.group(), *group);
        }
    }

    let two = vec![
        (Action::NextSlide, Vec::new()),
        (Action::PreviousSlide, Vec::new()),
        (Action::Quit, Vec::new()),
        (Action::NextSlide, Vec::new()),
    ];
    let sections = help_sections(&two);
    assert_eq!(sections.len(), 3);
    assert_eq!((sections[0].1, sections[0].2), (0, 2));
    assert_eq!((sections[1].1, sections[1].2), (2, 3));
    assert_eq!((sections[2].1, sections[2].2), (3, 4));
    assert!(help_sections(&Vec::new()).is_empty());
}

#[test]
fn displayed_combos_parse_back() {
    for text in ["Ctrl+Shift+s", "g", "Right", "Alt+F4", "Shift+Ctrl+Alt+PageDown", "Ctrl+1"] {
        let combo = KeyCombo::parse(text).unwrap();
        let back = KeyCombo::parse(&combo.display_name()).unwrap();
        assert_eq!(back, combo, "{text}");
    }
    assert_eq!(KeyCombo::parse("Ctrl+Shift+s").unwrap().display_name(), "Ctrl+Shift+S");
    assert_eq!(KeyCombo::parse("g").unwrap().display_name(), "G");
}

#[test]
fn action_names_are_snake_case() {
    for action in Action::all() {
        let name = action.config_name();
        assert!(!name.is_empty());
        assert!(name.chars().all(|c| c.is_ascii_lowercase() || c == '_'), "{name}");
        assert!(!name.starts_with('_') && !name.ends_with('_') && !name.contains("__"), "{name}");
        assert_eq!(Action::from_config_name(name), Some(action));
    }
}
