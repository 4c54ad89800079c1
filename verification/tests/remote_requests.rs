use dais::keybindings::Action;
use dais::remote::DrawTool;
use dais::remote_requests::{
    check_erase_points, command_for_action_name, goto_slide_index, unknown_remote_action, goto_status, parse_draw_tool, stroke_commands, RequestError, StrokeStep,
};

#[test]
fn http_goto_rejects_zero_slide() {
    assert_eq!(goto_slide_index(0), Err(RequestError::SlideZero));
    assert_eq!(RequestError::SlideZero.message(), "slide must be 1 or greater");
    assert_eq!(goto_slide_index(1), Ok(0));
    assert_eq!(goto_slide_index(12), Ok(11));
    assert_eq!(goto_status(12), "goto 12");
}

#[test]
fn draw_tools_by_name() {
    assert_eq!(parse_draw_tool("pen"), Ok(DrawTool::Pen));
    assert_eq!(parse_draw_tool("highlighter"), Ok(DrawTool::Highlighter));
    assert_eq!(parse_draw_tool("eraser"), Ok(DrawTool::Eraser));
    let err = parse_draw_tool("chalk").unwrap_err();
    assert_eq!(err, RequestError::UnknownTool("chalk".to_string()));
    assert_eq!(err.message(), "unknown tool: chalk");
}

#[test]
fn http_ink_stroke_rejects_single_point() {
    assert_eq!(stroke_commands(1, None, false, false, false), Err(RequestError::TooFewPoints));
    assert_eq!(RequestError::TooFewPoints.message(), "stroke requires at least 2 points");
}

#[test]
fn http_ink_stroke_without_color_or_width_omits_set_commands() {
    let steps = stroke_commands(2, None, false, false, false).unwrap();
    assert_eq!(
        steps,
        vec![
            StrokeStep::ToggleInk,
            StrokeStep::AddPoint(0),
            StrokeStep::AddPoint(1),
            StrokeStep::Finish,
            StrokeStep::ToggleInk,
            StrokeStep::Save,
        ]
    );
}

#[test]
fn http_ink_stroke_with_tool_dispatches_tool_before_style_and_points() {
    let steps = stroke_commands(3, Some("highlighter"), true, true, true).unwrap();
    assert_eq!(
        steps,
        vec![
            StrokeStep::SetTool(DrawTool::Highlighter),
            StrokeStep::SetColor,
            StrokeStep::SetWidth,
            StrokeStep::AddPoint(0),
            StrokeStep::AddPoint(1),
            StrokeStep::AddPoint(2),
            StrokeStep::Finish,
            StrokeStep::Save,
        ]
    );
}

#[test]
fn eraser_and_unknown_tools_are_refused_for_strokes() {
    assert_eq!(stroke_commands(2, Some("eraser"), false, false, true), Err(RequestError::EraserStroke));
    assert_eq!(
        RequestError::EraserStroke.message(),
        "eraser strokes use /api/v1/commands/ink/erase"
    );
    assert_eq!(
        stroke_commands(2, Some("brush"), false, false, true),
        Err(RequestError::UnknownTool("brush".to_string()))
    );
}

#[test]
fn erase_needs_a_point() {
    assert_eq!(check_erase_points(0), Err(RequestError::NoErasePoints));
    assert_eq!(RequestError::NoErasePoints.message(), "erase requires at least one point");
    assert_eq!(check_erase_points(3), Ok(()));
}

#[test]
fn remote_action_names_map_to_actions() {
    assert_eq!(command_for_action_name("next_slide"), Some(Action::NextSlide));
    assert_eq!(command_for_action_name("start_pause_timer"), Some(Action::StartPauseTimer));
    assert_eq!(command_for_action_name("toggle_whiteboard"), Some(Action::ToggleWhiteboard));
    assert_eq!(command_for_action_name("go_to_slide"), None);
    assert_eq!(command_for_action_name("quit"), None);
    assert_eq!(command_for_action_name("save_sidecar"), None);
    assert_eq!(command_for_action_name("toggle_notes_edit"), None);
    assert_eq!(command_for_action_name("missing"), None);
    assert_eq!(unknown_remote_action("not_real"), "unknown remote action 'not_real'");
}

#[test]
fn unknown_action_returns_error() {
    assert_eq!(command_for_action_name("not_real"), None);
    assert_eq!(unknown_remote_action("not_real"), "unknown remote action 'not_real'");
}
