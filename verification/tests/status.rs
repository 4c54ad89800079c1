use dais::status::{hud_indicator_texts, hud_position_texts};
use std::collections::HashMap;

use dais::modes::PresentationModes;
use dais::navigation::SlideNavigation;
use dais::slide_group::{build_slide_groups, SlideGroupMeta};
use dais::status::{jump_prompt, mode_indicator_texts, slide_position_text, slide_timer_label, timer_label};
use dais::timer::{TimerMode, TimerState};

const SEC: u128 = 1_000_000_000;

fn deck() -> SlideNavigation {
    let groups = build_slide_groups(
        6,
        &vec![SlideGroupMeta { start_page: 1, end_page: 3 }],
        &HashMap::new(),
    );
    SlideNavigation::new(6, groups)
}

#[test]
fn slide_position_shows_steps_only_on_built_slides() {
    let mut nav = deck();
    assert_eq!(slide_position_text(&nav), "Slide 1/4");
    nav.next_slide();
    assert_eq!(slide_position_text(&nav), "Slide 2/4 (step 1/3)");
    nav.next_overlay();
    assert_eq!(slide_position_text(&nav), "Slide 2/4 (step 2/3)");
    nav.last_slide();
    assert_eq!(slide_position_text(&nav), "Slide 4/4");
}

#[test]
fn mode_indicators_follow_the_modes() {
    let mut nav = deck();
    let mut modes = PresentationModes::new();
    assert_eq!(mode_indicator_texts(&nav, &modes), vec!["[L]aser"]);
    nav.toggle_freeze();
    modes.toggle_ink();
    modes.toggle_zoom();
    modes.toggle_screen_share();
    assert_eq!(
        mode_indicator_texts(&nav, &modes),
        vec!["[F]rozen", "[S]creen-share", "[D]raw", "[Z]oom"]
    );
    modes.toggle_blackout(&mut nav);
    modes.toggle_spotlight();
    modes.toggle_text_box_mode();
    assert_eq!(
        mode_indicator_texts(&nav, &modes),
        vec!["[F]rozen", "[B]lack", "[S]creen-share", "Spotlight", "[Z]oom", "[X]Text"]
    );
}

#[test]
fn timer_labels() {
    let stopped = TimerState::new();
    assert_eq!(timer_label(&stopped), "\u{25b6} 00:00");

    let countdown = TimerState {
        mode: TimerMode::Countdown,
        duration: Some(20 * 60 * SEC),
        elapsed: 65 * SEC,
        running: true,
        warning_threshold: None,
    };
    assert_eq!(timer_label(&countdown), "\u{23f8} 18:55 / 20:00");
}

#[test]
fn slide_timer_labels() {
    assert_eq!(slide_timer_label(75 * SEC, None), ("Slide 01:15".to_string(), false));
    assert_eq!(slide_timer_label(75 * SEC, Some(60 * SEC)), ("Slide 01:15 / 01:00".to_string(), true));
    assert_eq!(slide_timer_label(60 * SEC, Some(60 * SEC)), ("Slide 01:00 / 01:00".to_string(), false));
}

#[test]
fn jump_prompt_shows_typed_digits() {
    assert_eq!(jump_prompt("12"), "Go to: 12_");
    assert_eq!(jump_prompt(""), "Go to: _");
}

#[test]
fn hud_labels() {
    let mut nav = deck();
    let mut modes = PresentationModes::new();
    assert_eq!(hud_position_texts(&nav), ("1 / 4".to_string(), None));
    nav.next_slide();
    nav.next_overlay();
    assert_eq!(hud_position_texts(&nav), ("2 / 4".to_string(), Some("step 2/3".to_string())));
    assert_eq!(hud_indicator_texts(&nav, &modes), vec!["LASER"]);
    nav.toggle_freeze();
    modes.toggle_zoom();
    modes.toggle_spotlight();
    modes.toggle_ink();
    assert_eq!(hud_indicator_texts(&nav, &modes), vec!["FROZEN", "SPOT", "ZOOM"]);
}
