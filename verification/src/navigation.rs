//! Slide navigation: the position within the logical slides and their build steps.
//!
//! This is the navigation part of the presentation engine's state machine. Each
//! step is specified by a spec function from the old state to the new one, and
//! the laws at the end relate those steps to each other.
use crate::slide_group::SlideGroup;
use crate::text::{chars_of, is_blank};
use vstd::prelude::*;

verus! {

/// Where the presenter is within the deck.
#[derive(Debug)]
pub struct SlideNavigation {
    /// Total number of raw PDF pages.
    pub total_pages: usize,
    /// Logical slide groups (may be 1:1 with pages if no grouping).
    pub slide_groups: Vec<SlideGroup>,
    /// Total number of logical slides.
    pub total_logical_slides: usize,
    /// Current raw PDF page index (0-based).
    pub current_page: usize,
    /// Current logical slide index (0-based).
    pub current_logical_slide: usize,
    /// Current overlay step within the current group (0-based).
    pub current_overlay_within_group: usize,
    /// Whether the audience display is blacked out.
    pub blacked_out: bool,
    /// Whether the audience display is frozen.
    pub frozen: bool,
    /// The page shown on the audience display when frozen (None = not frozen).
    pub frozen_page: Option<usize>,
    /// Markdown notes for the current logical slide, if any.
    pub current_notes: Option<String>,
}

/// The pages of group `i`.
pub open spec fn pages_of(s: SlideNavigation, i: int) -> Seq<usize> {
    s.slide_groups@[i].pages@
}

impl SlideNavigation {
    /// The state is consistent: every group has a page, and the current page is
    /// the current overlay step of the current group.
    pub open spec fn wf(self) -> bool {
        &&& self.total_logical_slides == self.slide_groups@.len()
        &&& forall|i: int|
            0 <= i < self.slide_groups@.len() ==> (#[trigger] self.slide_groups@[i]).pages@.len() > 0
        &&& self.slide_groups@.len() > 0 ==> {
            &&& self.current_logical_slide < self.slide_groups@.len()
            &&& self.current_overlay_within_group < pages_of(
                self,
                self.current_logical_slide as int,
            ).len()
            &&& self.current_page == pages_of(self, self.current_logical_slide as int)[self.current_overlay_within_group as int]
        }
        &&& self.slide_groups@.len() == 0 ==> self.current_logical_slide == 0
            && self.current_overlay_within_group == 0
    }

    /// The state after moving to logical slide `index` (clamped to the last slide).
    pub open spec fn spec_go_to_group(self, index: int) -> SlideNavigation {
        if self.slide_groups@.len() == 0 || self.total_logical_slides == 0 {
            self
        } else {
            let c = if index < self.total_logical_slides - 1 {
                index
            } else {
                self.total_logical_slides - 1
            };
            SlideNavigation {
                blacked_out: false,
                current_logical_slide: c as usize,
                current_overlay_within_group: 0,
                current_page: pages_of(self, c)[0],
                current_notes: self.slide_groups@[c].notes,
                ..self
            }
        }
    }

    /// The state after advancing one build step (or to the next slide, or into the
    /// end-of-deck blackout).
    pub open spec fn spec_advance(self) -> SlideNavigation {
        if self.blacked_out || self.slide_groups@.len() == 0 {
            self
        } else {
            let g = pages_of(self, self.current_logical_slide as int);
            let overlay = self.current_overlay_within_group;
            if overlay + 1 < g.len() {
                SlideNavigation {
                    current_overlay_within_group: (overlay + 1) as usize,
                    current_page: g[overlay + 1],
                    ..self
                }
            } else if self.current_logical_slide + 1 < self.total_logical_slides {
                self.spec_go_to_group(self.current_logical_slide + 1)
            } else {
                SlideNavigation { blacked_out: true, ..self }
            }
        }
    }

    /// The state after going back one build step (or to the last step of the
    /// previous slide); leaving a blackout is a step of its own.
    pub open spec fn spec_rewind(self) -> SlideNavigation {
        if self.blacked_out {
            SlideNavigation { blacked_out: false, ..self }
        } else if self.slide_groups@.len() == 0 {
            self
        } else {
            let overlay = self.current_overlay_within_group;
            let current = self.current_logical_slide;
            if overlay > 0 {
                SlideNavigation {
                    current_overlay_within_group: (overlay - 1) as usize,
                    current_page: pages_of(self, current as int)[overlay - 1],
                    ..self
                }
            } else if current > 0 {
                let prev = current - 1;
                let last = pages_of(self, prev).len() - 1;
                SlideNavigation {
                    current_overlay_within_group: last as usize,
                    current_page: pages_of(self, prev)[last],
                    ..self.spec_go_to_group(prev)
                }
            } else {
                self
            }
        }
    }

    /// A presentation positioned at the first page of the first logical slide.
    pub fn new(total_pages: usize, slide_groups: Vec<SlideGroup>) -> (s: Self)
        requires
            forall|i: int| 0 <= i < slide_groups@.len() ==> (#[trigger] slide_groups@[i]).pages@.len() > 0,
            slide_groups@.len() > 0 ==> slide_groups@[0].pages@[0] == 0,
        ensures
            s.wf(),
            s.total_pages == total_pages,
            s.slide_groups == slide_groups,
            s.current_page == 0,
            s.current_logical_slide == 0,
            s.current_overlay_within_group == 0,
            !s.blacked_out,
            !s.frozen,
            s.frozen_page is None,
            s.current_notes == (if slide_groups@.len() > 0 {
                slide_groups@[0].notes
            } else {
                None
            }),
    {
        let total_logical_slides = slide_groups.len();
        let current_notes = if slide_groups.len() > 0 {
            clone_note(&slide_groups[0].notes)
        } else {
            None
        };
        SlideNavigation {
            total_pages,
            slide_groups,
            total_logical_slides,
            current_page: 0,
            current_logical_slide: 0,
            current_overlay_within_group: 0,
            blacked_out: false,
            frozen: false,
            frozen_page: None,
            current_notes,
        }
    }

    /// The page the audience should see (respects freeze).
    pub fn audience_page(&self) -> (p: usize)
        ensures
            p == match self.frozen_page {
                Some(f) => f,
                None => self.current_page,
            },
    {
        match self.frozen_page {
            Some(f) => f,
            None => self.current_page,
        }
    }

    /// Jump to a logical slide (clamped to the last one).
    pub fn go_to_group(&mut self, group_index: usize)
        requires
            old(self).wf(),
        ensures
            *final(self) == old(self).spec_go_to_group(group_index as int),
            final(self).wf(),
    {
        if self.slide_groups.len() == 0 || self.total_logical_slides == 0 {
            return;
        }
        // Clamp to last valid slide if out of range
        let clamped = if group_index < self.total_logical_slides - 1 {
            group_index
        } else {
            self.total_logical_slides - 1
        };
        self.blacked_out = false;
        self.current_logical_slide = clamped;
        self.current_overlay_within_group = 0;
        self.current_page = self.slide_groups[clamped].pages[0];
        self.current_notes = clone_note(&self.slide_groups[clamped].notes);
    }

    /// Advance to the next build step, or to the next logical slide when the
    /// current one is complete; past the last step the audience is blacked out.
    pub fn advance_step(&mut self)
        requires
            old(self).wf(),
        ensures
            *final(self) == old(self).spec_advance(),
            final(self).wf(),
    {
        if self.blacked_out {
            return;
        }
        if self.slide_groups.len() == 0 {
            return;
        }
        let overlay = self.current_overlay_within_group;
        let cls = self.current_logical_slide;
        let len = self.slide_groups[cls].pages.len();
        if overlay + 1 < len {
            self.current_overlay_within_group = overlay + 1;
            self.current_page = self.slide_groups[cls].pages[overlay + 1];
        } else {
            if cls + 1 < self.total_logical_slides {
                self.blacked_out = false;
                self.go_to_group(cls + 1);
            } else {
                self.blacked_out = true;
            }
        }
    }

    /// Go back one build step, or to the last step of the previous logical slide;
    /// a blacked-out display is restored first.
    pub fn rewind_step(&mut self)
        requires
            old(self).wf(),
        ensures
            *final(self) == old(self).spec_rewind(),
            final(self).wf(),
    {
        if self.blacked_out {
            self.blacked_out = false;
            return;
        }
        if self.slide_groups.len() == 0 {
            return;
        }
        let overlay = self.current_overlay_within_group;
        let cls = self.current_logical_slide;
        if overlay > 0 {
            self.current_overlay_within_group = overlay - 1;
            self.current_page = self.slide_groups[cls].pages[overlay - 1];
        } else {
            if cls > 0 {
                let last_overlay = self.slide_groups[cls - 1].pages.len() - 1;
                self.go_to_group(cls - 1);
                self.current_overlay_within_group = last_overlay;
                self.current_page = self.slide_groups[cls - 1].pages[last_overlay];
            }
        }
    }

    /// `NextSlide`: one build step forward.
    pub fn next_slide(&mut self)
        requires
            old(self).wf(),
        ensures
            *final(self) == old(self).spec_advance(),
            final(self).wf(),
    {
        self.advance_step();
    }

    /// `PreviousSlide`: one build step back.
    pub fn previous_slide(&mut self)
        requires
            old(self).wf(),
        ensures
            *final(self) == old(self).spec_rewind(),
            final(self).wf(),
    {
        self.rewind_step();
    }

    /// `NextOverlay`: one build step forward.
    pub fn next_overlay(&mut self)
        requires
            old(self).wf(),
        ensures
            *final(self) == old(self).spec_advance(),
            final(self).wf(),
    {
        self.advance_step();
    }

    /// `PreviousOverlay`: one build step back.
    pub fn previous_overlay(&mut self)
        requires
            old(self).wf(),
        ensures
            *final(self) == old(self).spec_rewind(),
            final(self).wf(),
    {
        self.rewind_step();
    }

    /// `FirstSlide`.
    pub fn first_slide(&mut self)
        requires
            old(self).wf(),
        ensures
            *final(self) == old(self).spec_go_to_group(0),
            final(self).wf(),
    {
        self.go_to_group(0);
    }

    /// `LastSlide`.
    pub fn last_slide(&mut self)
        requires
            old(self).wf(),
        ensures
            *final(self) == old(self).spec_go_to_group(
                if old(self).total_logical_slides == 0 {
                    0
                } else {
                    old(self).total_logical_slides - 1
                },
            ),
            final(self).wf(),
    {
        let last = if self.total_logical_slides == 0 {
            0
        } else {
            self.total_logical_slides - 1
        };
        self.go_to_group(last);
    }

    /// `ToggleFreeze`: freeze the audience on the current page, or unfreeze.
    pub fn toggle_freeze(&mut self)
        requires
            old(self).wf(),
        ensures
            final(self).wf(),
            final(self).frozen == !old(self).frozen,
            final(self).frozen_page == (if old(self).frozen {
                None
            } else {
                Some(old(self).current_page)
            }),
            *final(self) == (SlideNavigation {
                frozen: final(self).frozen,
                frozen_page: final(self).frozen_page,
                ..*old(self)
            }),
    {
        if self.frozen {
            self.frozen = false;
            self.frozen_page = None;
        } else {
            self.frozen = true;
            self.frozen_page = Some(self.current_page);
        }
    }

    /// `ToggleBlackout`: returns whether the display is now blacked out.
    pub fn toggle_blackout(&mut self) -> (now: bool)
        requires
            old(self).wf(),
        ensures
            final(self).wf(),
            now == !old(self).blacked_out,
            *final(self) == (SlideNavigation { blacked_out: now, ..*old(self) }),
    {
        self.blacked_out = !self.blacked_out;
        self.blacked_out
    }

    /// `SetCurrentSlideNotes`: replace the current slide's notes; blank text clears them.
    pub fn set_current_slide_notes(&mut self, text: &str)
        requires
            old(self).wf(),
        ensures
            final(self).wf(),
            crate::text::trim(text@).len() == 0 ==> final(self).current_notes is None,
            crate::text::trim(text@).len() != 0 ==> (final(self).current_notes matches Some(n)
                && n@ == text@),
            old(self).current_logical_slide < old(self).slide_groups@.len()
                ==> final(self).slide_groups@ == old(self).slide_groups@.update(
                old(self).current_logical_slide as int,
                SlideGroup {
                    notes: final(self).current_notes,
                    ..old(self).slide_groups@[old(self).current_logical_slide as int]
                },
            ),
            old(self).current_logical_slide >= old(self).slide_groups@.len()
                ==> final(self).slide_groups == old(self).slide_groups,
            position(*final(self)) == position(*old(self)),
            final(self).frozen == old(self).frozen,
            final(self).frozen_page == old(self).frozen_page,
            final(self).total_pages == old(self).total_pages,
            final(self).total_logical_slides == old(self).total_logical_slides,
    {
        let chars = chars_of(text);
        let notes = if is_blank(&chars) {
            None
        } else {
            Some(crate::text::string_of(&chars))
        };
        let cls = self.current_logical_slide;
        if cls < self.slide_groups.len() {
            let old_group = self.slide_groups.remove(cls);
            let group = SlideGroup {
                logical_index: old_group.logical_index,
                pages: old_group.pages,
                notes: clone_note(&notes),
            };
            self.slide_groups.insert(cls, group);
            proof {
                assert(self.slide_groups@ =~= old(self).slide_groups@.update(
                    cls as int,
                    SlideGroup { notes: notes, ..old(self).slide_groups@[cls as int] },
                ));
                assert forall|i: int| 0 <= i < self.slide_groups@.len() implies (
                #[trigger] self.slide_groups@[i]).pages@.len() > 0 by {
                    assert(self.slide_groups@[i].pages@ == old(self).slide_groups@[i].pages@);
                }
            }
        }
        self.current_notes = notes;
    }
}

impl SlideNavigation {
    /// The page the remote previews as the next one: the first page of the next
    /// logical slide, or the current page on the last slide.
    pub fn next_page(&self) -> (r: usize)
        ensures
            r == if self.current_logical_slide + 1 < self.slide_groups@.len() && pages_of(
                *self,
                self.current_logical_slide + 1,
            ).len() > 0 {
                pages_of(*self, self.current_logical_slide + 1)[0]
            } else {
                self.current_page
            },
    {
        let count = self.slide_groups.len();
        if self.current_logical_slide < usize::MAX {
            let group = self.current_logical_slide + 1;
            if group < count && self.slide_groups[group].pages.len() > 0 {
                return self.slide_groups[group].pages[0];
            }
        }
        self.current_page
    }

    /// The first page of logical slide `logical_slide`, if there is one.
    pub fn logical_slide_page(&self, logical_slide: usize) -> (r: Option<usize>)
        ensures
            r == if logical_slide < self.slide_groups@.len() && pages_of(*self, logical_slide as int).len()
                > 0 {
                Some(pages_of(*self, logical_slide as int)[0])
            } else {
                None
            },
    {
        if logical_slide < self.slide_groups.len() && self.slide_groups[logical_slide].pages.len() > 0 {
            Some(self.slide_groups[logical_slide].pages[0])
        } else {
            None
        }
    }
}

/// A copy of a slide's notes.
pub fn clone_note(n: &Option<String>) -> (r: Option<String>)
    ensures
        r == *n,
{
    match n {
        Some(s) => Some(s.clone()),
        None => None,
    }
}

// ---------------------------------------------------------------------------
// Laws
// ---------------------------------------------------------------------------

/// The position part of the state: page, logical slide, overlay step and blackout.
pub open spec fn position(s: SlideNavigation) -> (usize, usize, usize, bool) {
    (s.current_page, s.current_logical_slide, s.current_overlay_within_group, s.blacked_out)
}

proof fn lemma_go_to_group(s: SlideNavigation, index: int)
    requires
        s.wf(),
        0 <= index,
    ensures
        s.spec_go_to_group(index).wf(),
        s.spec_go_to_group(index).slide_groups == s.slide_groups,
        s.spec_go_to_group(index).total_logical_slides == s.total_logical_slides,
        s.slide_groups@.len() > 0 ==> {
            let c = if index < s.total_logical_slides - 1 {
                index
            } else {
                s.total_logical_slides - 1
            };
            &&& s.spec_go_to_group(index).current_logical_slide == c
            &&& s.spec_go_to_group(index).current_overlay_within_group == 0
            &&& s.spec_go_to_group(index).current_page == pages_of(s, c)[0]
            &&& !s.spec_go_to_group(index).blacked_out
        },
{
    if s.slide_groups@.len() > 0 {
        let c = if index < s.total_logical_slides - 1 {
            index
        } else {
            s.total_logical_slides - 1
        };
        assert(s.slide_groups@[c].pages@.len() > 0);
    }
}

proof fn lemma_advance(s: SlideNavigation)
    requires
        s.wf(),
    ensures
        s.spec_advance().wf(),
        s.spec_advance().slide_groups == s.slide_groups,
{
    let t = s.spec_advance();
    if !(s.blacked_out || s.slide_groups@.len() == 0) {
        let g = pages_of(s, s.current_logical_slide as int);
        let overlay = s.current_overlay_within_group;
        assert(g.len() == s.slide_groups@[s.current_logical_slide as int].pages.len());
        if overlay + 1 < g.len() {
            assert(t.current_page == pages_of(t, t.current_logical_slide as int)[t.current_overlay_within_group as int]);
        } else if s.current_logical_slide + 1 < s.total_logical_slides {
            lemma_go_to_group(s, s.current_logical_slide + 1);
        }
    }
}

proof fn lemma_rewind(s: SlideNavigation)
    requires
        s.wf(),
    ensures
        s.spec_rewind().wf(),
        s.spec_rewind().slide_groups == s.slide_groups,
{
    let t = s.spec_rewind();
    if !s.blacked_out && s.slide_groups@.len() > 0 {
        let overlay = s.current_overlay_within_group;
        let current = s.current_logical_slide;
        if overlay > 0 {
            assert(t.current_page == pages_of(t, t.current_logical_slide as int)[t.current_overlay_within_group as int]);
        } else if current > 0 {
            let prev = current - 1;
            assert(pages_of(s, prev as int).len() == s.slide_groups@[prev as int].pages.len());
            lemma_go_to_group(s, prev as int);
            assert(s.slide_groups@[prev as int].pages@.len() > 0);
            assert(t.current_logical_slide == prev);
            assert(t.current_page == pages_of(t, t.current_logical_slide as int)[t.current_overlay_within_group as int]);
        }
    }
}

/// Every navigation step keeps the state consistent.
pub proof fn law_steps_keep_state_consistent(s: SlideNavigation, index: usize)
    requires
        s.wf(),
    ensures
        s.spec_advance().wf(),
        s.spec_rewind().wf(),
        s.spec_go_to_group(index as int).wf(),
{
    lemma_advance(s);
    lemma_rewind(s);
    lemma_go_to_group(s, index as int);
}

/// Going back one step undoes going forward one step, whenever the audience is
/// not blacked out: at the end of the deck the forward step blacks out, and the
/// backward step lifts the blackout.
pub proof fn law_rewind_undoes_advance(s: SlideNavigation)
    requires
        s.wf(),
        !s.blacked_out,
    ensures
        position(s.spec_advance().spec_rewind()) == position(s),
{
    lemma_advance(s);
    if s.slide_groups@.len() > 0 {
        let g = pages_of(s, s.current_logical_slide as int);
        assert(g.len() == s.slide_groups@[s.current_logical_slide as int].pages.len());
        if s.current_overlay_within_group + 1 >= g.len() && s.current_logical_slide + 1
            < s.total_logical_slides {
            assert(s.current_overlay_within_group == g.len() - 1);
            lemma_go_to_group(s, s.current_logical_slide + 1);
            let t = s.spec_advance();
            assert(t.current_logical_slide == s.current_logical_slide + 1);
            assert(t.current_overlay_within_group == 0);
            lemma_rewind(t);
        }
    }
}

/// Going forward one step undoes going back one step, everywhere except at the
/// very first step of the deck (where going back does nothing) and during a
/// blackout (where going back only lifts it).
pub proof fn law_advance_undoes_rewind(s: SlideNavigation)
    requires
        s.wf(),
        !s.blacked_out,
        s.slide_groups@.len() > 0,
        s.current_logical_slide > 0 || s.current_overlay_within_group > 0,
    ensures
        position(s.spec_rewind().spec_advance()) == position(s),
{
    lemma_rewind(s);
    let t = s.spec_rewind();
    if s.current_overlay_within_group == 0 {
        let prev = s.current_logical_slide - 1;
        assert(pages_of(s, prev as int).len() == s.slide_groups@[prev as int].pages.len());
        lemma_go_to_group(s, prev as int);
        assert(t.current_logical_slide == prev);
        assert(t.current_overlay_within_group == pages_of(s, prev as int).len() - 1);
        lemma_go_to_group(t, (prev + 1) as int);
    }
}

/// Jumping to a slide lands on its first build step, clamped to the last slide,
/// with the audience display restored.
pub proof fn law_go_to_lands_on_first_step(s: SlideNavigation, index: usize)
    requires
        s.wf(),
        s.slide_groups@.len() > 0,
    ensures
        ({
            let t = s.spec_go_to_group(index as int);
            let c = if index < s.slide_groups@.len() {
                index as int
            } else {
                s.slide_groups@.len() - 1
            };
            &&& t.current_logical_slide == c
            &&& t.current_overlay_within_group == 0
            &&& t.current_page == pages_of(s, c)[0]
            &&& !t.blacked_out
        }),
{
    lemma_go_to_group(s, index as int);
}

/// Advancing never moves backwards through the deck: the (slide, step) pair
/// does not decrease.
pub proof fn law_advance_is_monotone(s: SlideNavigation)
    requires
        s.wf(),
    ensures
        ({
            let t = s.spec_advance();
            ||| t.current_logical_slide > s.current_logical_slide
            ||| (t.current_logical_slide == s.current_logical_slide
                && t.current_overlay_within_group >= s.current_overlay_within_group)
        }),
{
    if !(s.blacked_out || s.slide_groups@.len() == 0) {
        let g = pages_of(s, s.current_logical_slide as int);
        assert(g.len() == s.slide_groups@[s.current_logical_slide as int].pages.len());
        if s.current_overlay_within_group + 1 >= g.len() && s.current_logical_slide + 1
            < s.total_logical_slides {
            lemma_go_to_group(s, s.current_logical_slide + 1);
        }
    }
}

/// The notes shown always belong to the slide shown: every step forward or back
/// and every jump leaves the notes of the logical slide it lands on (whichever
/// slide was left), and the slides' own notes are untouched.
pub proof fn law_notes_follow_the_slide(s: SlideNavigation, index: usize)
    requires
        s.wf(),
        s.slide_groups@.len() > 0,
        s.current_notes == s.slide_groups@[s.current_logical_slide as int].notes,
    ensures
        s.spec_advance().current_notes == s.spec_advance().slide_groups@[s.spec_advance().current_logical_slide as int].notes,
        s.spec_rewind().current_notes == s.spec_rewind().slide_groups@[s.spec_rewind().current_logical_slide as int].notes,
        s.spec_go_to_group(index as int).current_notes == s.spec_go_to_group(index as int).slide_groups@[s.spec_go_to_group(index as int).current_logical_slide as int].notes,
        s.spec_advance().slide_groups == s.slide_groups,
        s.spec_rewind().slide_groups == s.slide_groups,
        s.spec_go_to_group(index as int).slide_groups == s.slide_groups,
{
}


} // verus!
