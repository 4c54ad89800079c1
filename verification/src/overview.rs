//! Keyboard navigation in the slide overview grid: the arrow keys move the
//! selection through a grid of thumbnails, Enter jumps to the selected slide,
//! Escape closes the overview.
use crate::slide_group::SlideGroup;
use vstd::prelude::*;

verus! {

/// A key the overview grid reacts to.
#[derive(Debug, Clone, Copy, PartialEq, Eq, Structural)]
pub enum NavigateDir {
    /// Arrow left.
    Left,
    /// Arrow right.
    Right,
    /// Arrow down.
    Down,
    /// Arrow up.
    Up,
    /// Enter.
    Select,
    /// Escape.
    Close,
}

/// What the overview asks of the presentation after a key.
#[derive(Debug, Clone, Copy, PartialEq, Eq, Structural)]
pub enum OverviewRequest {
    /// Nothing to send.
    Stay,
    /// Go to the logical slide, then close the overview.
    GoTo(usize),
    /// Close the overview.
    Close,
}

/// The selection after a key, in a grid of `columns` columns showing `total`
/// slides: a move that would leave the slides is ignored.
pub open spec fn moved_selection(selected: int, columns: int, total: int, dir: NavigateDir) -> int {
    match dir {
        NavigateDir::Right => if selected + 1 < total {
            selected + 1
        } else {
            selected
        },
        NavigateDir::Left => if selected > 0 {
            selected - 1
        } else {
            selected
        },
        NavigateDir::Down => if selected + columns < total {
            selected + columns
        } else {
            selected
        },
        NavigateDir::Up => if selected >= columns {
            selected - columns
        } else {
            selected
        },
        _ => selected,
    }
}

/// The request a key makes.
pub open spec fn overview_request(selected: usize, dir: NavigateDir) -> OverviewRequest {
    match dir {
        NavigateDir::Select => OverviewRequest::GoTo(selected),
        NavigateDir::Close => OverviewRequest::Close,
        _ => OverviewRequest::Stay,
    }
}

/// Applies a key to the selection; returns the new selection and the request.
pub fn overview_key(selected: usize, columns: usize, total: usize, dir: NavigateDir) -> (r: (
    usize,
    OverviewRequest,
))
    ensures
        r.0 == moved_selection(selected as int, columns as int, total as int, dir),
        r.1 == overview_request(selected, dir),
{
    match dir {
        NavigateDir::Right => {
            if selected < total && selected + 1 < total {
                (selected + 1, OverviewRequest::Stay)
            } else {
                (selected, OverviewRequest::Stay)
            }
        },
        NavigateDir::Left => {
            if selected > 0 {
                (selected - 1, OverviewRequest::Stay)
            } else {
                (selected, OverviewRequest::Stay)
            }
        },
        NavigateDir::Down => {
            if selected < total && columns < total - selected {
                (selected + columns, OverviewRequest::Stay)
            } else {
                (selected, OverviewRequest::Stay)
            }
        },
        NavigateDir::Up => {
            if selected >= columns {
                (selected - columns, OverviewRequest::Stay)
            } else {
                (selected, OverviewRequest::Stay)
            }
        },
        NavigateDir::Select => (selected, OverviewRequest::GoTo(selected)),
        NavigateDir::Close => (selected, OverviewRequest::Close),
    }
}

/// The page a thumbnail shows: the first page of its logical slide, or the
/// slide's own index when there is no such group.
pub open spec fn thumbnail_page_of(groups: Seq<SlideGroup>, index: int) -> usize {
    if 0 <= index < groups.len() && groups[index].pages@.len() > 0 {
        groups[index].pages@[0]
    } else {
        index as usize
    }
}

/// The page the thumbnail of logical slide `index` shows.
pub fn thumbnail_page(groups: &Vec<SlideGroup>, index: usize) -> (r: usize)
    ensures
        r == thumbnail_page_of(groups@, index as int),
{
    if index < groups.len() && groups[index].pages.len() > 0 {
        groups[index].pages[0]
    } else {
        index
    }
}

/// The selection never leaves the slides: from a slide every key leaves it on
/// a slide, and a step right then left (or down then up) comes back when the
/// first step moved.
pub proof fn law_overview_selection_stays_on_slides(
    selected: int,
    columns: int,
    total: int,
    dir: NavigateDir,
)
    requires
        0 <= selected < total,
        columns >= 1,
    ensures
        0 <= moved_selection(selected, columns, total, dir) < total,
        moved_selection(selected, columns, total, NavigateDir::Right) != selected
            ==> moved_selection(
            moved_selection(selected, columns, total, NavigateDir::Right),
            columns,
            total,
            NavigateDir::Left,
        ) == selected,
        moved_selection(selected, columns, total, NavigateDir::Down) != selected
            ==> moved_selection(
            moved_selection(selected, columns, total, NavigateDir::Down),
            columns,
            total,
            NavigateDir::Up,
        ) == selected,
{
}

} // verus!
