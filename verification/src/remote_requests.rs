//! What the remote API makes of a request before it reaches the presentation:
//! the action a name triggers, the slide a `goto` names, the drawing tool a request names, and the order of
//! the commands that draw a stroke sent by a remote client.
use crate::keybindings::{action_named, Action};
use crate::remote::DrawTool;
use crate::text::{append_str, chars_of, decimal, decimal_chars, is_word, string_of};
use vstd::prelude::*;

verus! {

/// Whether the remote API may trigger an action: not the notes editor, the
/// notes font size, text box placement, quitting, saving or the slide jump.
pub open spec fn remote_allows(a: Action) -> bool {
    !(a == Action::ToggleNotesEdit || a == Action::IncrementNotesFont || a
        == Action::DecrementNotesFont || a == Action::ToggleTextBoxMode || a == Action::Quit || a
        == Action::SaveSidecar || a == Action::GoToSlide)
}

/// The action a remote action name triggers, if the remote may trigger it.
pub fn command_for_action_name(name: &str) -> (r: Option<Action>)
    ensures
        r == match action_named(name@) {
            Some(a) => if remote_allows(a) {
                Some(a)
            } else {
                None
            },
            None => None,
        },
{
    match Action::from_config_name(name) {
        Some(a) => match a {
            Action::ToggleNotesEdit | Action::IncrementNotesFont | Action::DecrementNotesFont
            | Action::ToggleTextBoxMode | Action::Quit | Action::SaveSidecar
            | Action::GoToSlide => None,
            _ => Some(a),
        },
        None => None,
    }
}

/// The error for a remote action name that triggers nothing.
pub fn unknown_remote_action(name: &str) -> (r: String)
    ensures
        r@ == "unknown remote action '"@ + name@ + "'"@,
{
    let mut out: Vec<char> = Vec::new();
    append_str(&mut out, "unknown remote action '");
    append_str(&mut out, name);
    append_str(&mut out, "'");
    string_of(&out)
}

/// Why the remote API refuses a request.
#[derive(Debug, Clone, PartialEq, Eq)]
pub enum RequestError {
    /// `goto` with slide 0 (slides are numbered from 1).
    SlideZero,
    /// A tool name that is not `pen`, `highlighter` or `eraser`.
    UnknownTool(String),
    /// An eraser stroke sent to the stroke endpoint.
    EraserStroke,
    /// A stroke of fewer than two points.
    TooFewPoints,
    /// An erase request without points.
    NoErasePoints,
}

/// The message of a refused request.
pub open spec fn request_error_text(e: RequestError) -> Seq<char> {
    match e {
        RequestError::SlideZero => "slide must be 1 or greater"@,
        RequestError::UnknownTool(t) => "unknown tool: "@ + t@,
        RequestError::EraserStroke => "eraser strokes use /api/v1/commands/ink/erase"@,
        RequestError::TooFewPoints => "stroke requires at least 2 points"@,
        RequestError::NoErasePoints => "erase requires at least one point"@,
    }
}

impl RequestError {
    /// The error message.
    pub fn message(&self) -> (r: String)
        ensures
            r@ == request_error_text(*self),
    {
        let mut out: Vec<char> = Vec::new();
        match self {
            RequestError::SlideZero => append_str(&mut out, "slide must be 1 or greater"),
            RequestError::UnknownTool(t) => {
                append_str(&mut out, "unknown tool: ");
                append_str(&mut out, t.as_str());
            },
            RequestError::EraserStroke => append_str(
                &mut out,
                "eraser strokes use /api/v1/commands/ink/erase",
            ),
            RequestError::TooFewPoints => append_str(&mut out, "stroke requires at least 2 points"),
            RequestError::NoErasePoints => append_str(&mut out, "erase requires at least one point"),
        }
        string_of(&out)
    }
}

/// The zero-based slide a `goto` for 1-based `slide` shows.
pub fn goto_slide_index(slide: usize) -> (r: Result<usize, RequestError>)
    ensures
        slide == 0 ==> r == Err::<usize, RequestError>(RequestError::SlideZero),
        slide > 0 ==> r == Ok::<usize, RequestError>((slide - 1) as usize),
{
    if slide == 0 {
        Err(RequestError::SlideZero)
    } else {
        Ok(slide - 1)
    }
}

/// An erase request needs at least one point.
pub fn check_erase_points(point_count: usize) -> (r: Result<(), RequestError>)
    ensures
        point_count == 0 ==> r == Err::<(), RequestError>(RequestError::NoErasePoints),
        point_count > 0 ==> r == Ok::<(), RequestError>(()),
{
    if point_count == 0 {
        Err(RequestError::NoErasePoints)
    } else {
        Ok(())
    }
}

/// The status line recorded for a `goto`.
pub fn goto_status(slide: usize) -> (r: String)
    ensures
        r@ == "goto "@ + decimal(slide as nat),
{
    let mut out: Vec<char> = Vec::new();
    append_str(&mut out, "goto ");
    let n = decimal_chars(slide as u64);
    let mut i: usize = 0;
    let ghost start = out@;
    while i < n.len()
        invariant
            i <= n@.len(),
            out@ == start + n@.take(i as int),
        decreases n@.len() - i,
    {
        out.push(n[i]);
        assert(n@.take(i + 1) =~= n@.take(i as int).push(n@[i as int]));
        i += 1;
    }
    assert(n@.take(n@.len() as int) =~= n@);
    string_of(&out)
}

/// The tool a name names.
pub open spec fn draw_tool_named(name: Seq<char>) -> Option<DrawTool> {
    if name == "pen"@ {
        Some(DrawTool::Pen)
    } else if name == "highlighter"@ {
        Some(DrawTool::Highlighter)
    } else if name == "eraser"@ {
        Some(DrawTool::Eraser)
    } else {
        None
    }
}

/// The drawing tool a request names.
pub fn parse_draw_tool(name: &str) -> (r: Result<DrawTool, RequestError>)
    ensures
        match r {
            Ok(t) => draw_tool_named(name@) == Some(t),
            Err(e) => draw_tool_named(name@) is None && e == RequestError::UnknownTool(e->0)
                && e->0@ == name@,
        },
{
    let chars = chars_of(name);
    if is_word(&chars, "pen") {
        Ok(DrawTool::Pen)
    } else if is_word(&chars, "highlighter") {
        Ok(DrawTool::Highlighter)
    } else if is_word(&chars, "eraser") {
        Ok(DrawTool::Eraser)
    } else {
        Err(RequestError::UnknownTool(string_of(&chars)))
    }
}

/// One command of a remote stroke, in the order they are sent.
#[derive(Debug, Clone, Copy, PartialEq, Eq, Structural)]
pub enum StrokeStep {
    /// Turn ink on (before) or back off (after), when it was off.
    ToggleInk,
    /// Select the requested tool.
    SetTool(DrawTool),
    /// Set the requested color.
    SetColor,
    /// Set the requested width.
    SetWidth,
    /// Add the request's point with this index.
    AddPoint(usize),
    /// End the stroke.
    Finish,
    /// Save the sidecar.
    Save,
}

/// `[s]` when `on`.
pub open spec fn step_if(on: bool, s: StrokeStep) -> Seq<StrokeStep> {
    if on {
        seq![s]
    } else {
        seq![]
    }
}

/// The commands of a stroke: ink on when it was off, the tool, color and width
/// when given, the points in order, the end of the stroke, ink back off, and a
/// save.
pub open spec fn stroke_steps(
    points: nat,
    tool: Option<DrawTool>,
    has_color: bool,
    has_width: bool,
    ink_active: bool,
) -> Seq<StrokeStep> {
    step_if(!ink_active, StrokeStep::ToggleInk) + (match tool {
        Some(t) => seq![StrokeStep::SetTool(t)],
        None => seq![],
    }) + step_if(has_color, StrokeStep::SetColor) + step_if(has_width, StrokeStep::SetWidth)
        + Seq::new(points, |i: int| StrokeStep::AddPoint(i as usize)) + seq![StrokeStep::Finish]
        + step_if(!ink_active, StrokeStep::ToggleInk) + seq![StrokeStep::Save]
}

/// Appends `s` when `on`.
fn push_step(out: &mut Vec<StrokeStep>, on: bool, s: StrokeStep)
    ensures
        final(out)@ == old(out)@ + step_if(on, s),
{
    if on {
        out.push(s);
    }
    assert(out@ =~= old(out)@ + step_if(on, s));
}

/// The commands that draw a stroke a remote client sent: `point_count` points,
/// an optional tool name, and whether a color and a width came with it. Strokes
/// of fewer than two points, eraser strokes and unknown tools are refused.
pub fn stroke_commands(
    point_count: usize,
    tool: Option<&str>,
    has_color: bool,
    has_width: bool,
    ink_active: bool,
) -> (r: Result<Vec<StrokeStep>, RequestError>)
    ensures
        point_count < 2 ==> r == Err::<Vec<StrokeStep>, RequestError>(RequestError::TooFewPoints),
        point_count >= 2 ==> match tool {
            None => r matches Ok(steps) && steps@ == stroke_steps(
                point_count as nat,
                None,
                has_color,
                has_width,
                ink_active,
            ),
            Some(name) => match draw_tool_named(name@) {
                Some(DrawTool::Eraser) => r == Err::<Vec<StrokeStep>, RequestError>(
                    RequestError::EraserStroke,
                ),
                Some(t) => r matches Ok(steps) && steps@ == stroke_steps(
                    point_count as nat,
                    Some(t),
                    has_color,
                    has_width,
                    ink_active,
                ),
                None => r matches Err(e) && e == RequestError::UnknownTool(e->0) && e->0@ == name@,
            },
        },
{
    if point_count < 2 {
        return Err(RequestError::TooFewPoints);
    }
    let requested: Option<DrawTool> = match tool {
        Some(name) => match parse_draw_tool(name) {
            Ok(DrawTool::Eraser) => {
                return Err(RequestError::EraserStroke);
            },
            Ok(t) => Some(t),
            Err(e) => {
                return Err(e);
            },
        },
        None => None,
    };
    let mut steps: Vec<StrokeStep> = Vec::new();
    push_step(&mut steps, !ink_active, StrokeStep::ToggleInk);
    match requested {
        Some(t) => {
            steps.push(StrokeStep::SetTool(t));
        },
        None => {},
    }
    push_step(&mut steps, has_color, StrokeStep::SetColor);
    push_step(&mut steps, has_width, StrokeStep::SetWidth);
    let ghost head = steps@;
    let mut i: usize = 0;
    while i < point_count
        invariant
            i <= point_count,
            steps@ == head + Seq::new(i as nat, |k: int| StrokeStep::AddPoint(k as usize)),
        decreases point_count - i,
    {
        steps.push(StrokeStep::AddPoint(i));
        i += 1;
        assert(steps@ =~= head + Seq::new(i as nat, |k: int| StrokeStep::AddPoint(k as usize)));
    }
    steps.push(StrokeStep::Finish);
    push_step(&mut steps, !ink_active, StrokeStep::ToggleInk);
    steps.push(StrokeStep::Save);
    assert(steps@ =~= stroke_steps(point_count as nat, requested, has_color, has_width, ink_active));
    Ok(steps)
}

/// The number of commands a stroke sends before its first point.
pub open spec fn steps_before_points(
    tool: Option<DrawTool>,
    has_color: bool,
    has_width: bool,
    ink_active: bool,
) -> int {
    (if !ink_active { 1int } else { 0 }) + (if tool is Some { 1int } else { 0 }) + (if has_color {
        1int
    } else {
        0
    }) + (if has_width { 1int } else { 0 })
}

/// A remote stroke leaves the ink mode as it found it: ink is toggled only when
/// it was off, first and once more right after the stroke ends; the points are
/// added once each and in order, in one run that the end of the stroke follows,
/// and the sidecar is saved last.
pub proof fn law_remote_stroke_restores_ink_mode(
    points: nat,
    tool: Option<DrawTool>,
    has_color: bool,
    has_width: bool,
    ink_active: bool,
)
    ensures
        ({
            let s = stroke_steps(points, tool, has_color, has_width, ink_active);
            let k = steps_before_points(tool, has_color, has_width, ink_active);
            &&& s.subrange(k, k + points) == Seq::new(points, |i: int| StrokeStep::AddPoint(i as usize))
            &&& s[k + points] == StrokeStep::Finish
            &&& s.last() == StrokeStep::Save
            &&& forall|i: int|
                0 <= i < s.len() && #[trigger] s[i] == StrokeStep::ToggleInk ==> !ink_active && (i
                    == 0 || i == k + points + 1)
            &&& !ink_active ==> s[0] == StrokeStep::ToggleInk && s[k + points + 1]
                == StrokeStep::ToggleInk
        }),
{
    let pre = step_if(!ink_active, StrokeStep::ToggleInk) + (match tool {
        Some(t) => seq![StrokeStep::SetTool(t)],
        None => seq![],
    }) + step_if(has_color, StrokeStep::SetColor) + step_if(has_width, StrokeStep::SetWidth);
    let pts = Seq::new(points, |i: int| StrokeStep::AddPoint(i as usize));
    let post = seq![StrokeStep::Finish] + step_if(!ink_active, StrokeStep::ToggleInk) + seq![
        StrokeStep::Save,
    ];
    let s = stroke_steps(points, tool, has_color, has_width, ink_active);
    let k = steps_before_points(tool, has_color, has_width, ink_active);
    assert(s =~= pre + pts + post);
    assert(pre.len() == k);
    assert(s.subrange(k, k + points) =~= pts);
    assert forall|i: int|
        0 <= i < s.len() && #[trigger] s[i] == StrokeStep::ToggleInk implies !ink_active && (i == 0
            || i == k + points + 1) by {
        if i < k {
            assert(s[i] == pre[i]);
            if ink_active || i > 0 {
                assert(pre[i] != StrokeStep::ToggleInk);
            }
        } else if i < k + points {
            assert(s[i] == pts[i - k]);
        } else {
            assert(s[i] == post[i - k - points]);
        }
    }
}

} // verus!
