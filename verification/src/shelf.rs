//! When the shelf opens and closes: the shelf's visibility, the policy that will
//! close it, the configured open mode, and the decisions taken on each cursor
//! sample, tray click, focus loss or mode change. Each decision returns the
//! window move that the caller carries out.
use vstd::prelude::*;
use crate::geometry::{
    Layout, PARK_X, DRAG_EDGE, HOVER_EDGE, shelf_x, shelf_y, sliver_x, screen_right, in_y_band,
    over_shelf,
};
use crate::settings::OpenMode;

verus! {

/// What closes the shelf once it is open.
#[derive(Clone, Copy, Debug, PartialEq, Eq, Structural)]
pub enum ClosePolicy {
    /// The cursor leaving the shelf parks it off screen.
    CursorPark,
    /// The cursor leaving the shelf collapses it to the tab-mode sliver.
    CursorSliver,
    /// The window losing focus hides it.
    Blur,
    /// Only an explicit close hides it.
    Manual,
}

/// What the caller does to the window.
#[derive(Clone, Copy, Debug, PartialEq, Eq, Structural)]
pub enum Effect {
    /// Nothing.
    Stay,
    /// Move the window to `(x, y)` and show it there; take the focus when `focus`.
    Show { x: i32, y: i32, focus: bool },
    /// Move the window to `(x, y)` once the closing slide has played, provided the
    /// shelf is still closed then.
    Park { x: i32, y: i32 },
    /// Move the window to `(x, y)` now.
    MoveTo { x: i32, y: i32 },
}

/// The shelf's state: open or closed, the policy that closes it, and the open mode.
/// A closed shelf always holds the cursor-park policy, which the next opening
/// replaces.
#[derive(Clone, Copy, Debug)]
pub struct ShelfState {
    visible: bool,
    close_policy: ClosePolicy,
    open_mode: OpenMode,
}

/// What a `ShelfState` holds.
#[derive(Clone, Copy, Debug, PartialEq, Eq, Structural)]
pub struct ShelfView {
    pub visible: bool,
    pub close_policy: ClosePolicy,
    pub open_mode: OpenMode,
}

impl View for ShelfState {
    type V = ShelfView;

    closed spec fn view(&self) -> ShelfView {
        ShelfView {
            visible: self.visible,
            close_policy: self.close_policy,
            open_mode: self.open_mode,
        }
    }
}

impl ShelfView {
    /// A closed shelf holds the cursor-park policy.
    pub open spec fn inv(self) -> bool {
        !self.visible ==> self.close_policy == ClosePolicy::CursorPark
    }

    pub open spec fn opened(self, policy: ClosePolicy) -> ShelfView {
        if self.visible {
            self
        } else {
            ShelfView { visible: true, close_policy: policy, ..self }
        }
    }

    pub open spec fn closed(self) -> ShelfView {
        if self.visible {
            ShelfView { visible: false, close_policy: ClosePolicy::CursorPark, ..self }
        } else {
            self
        }
    }
}

/// Where a closed shelf rests: the tab sliver, or far off screen.
pub open spec fn rest_point(l: Layout, sliver: bool) -> (int, int) {
    if sliver {
        (l.sliver_left(), l.top())
    } else {
        (PARK_X as int, 0)
    }
}

pub open spec fn is_move_to(e: Effect, p: (int, int)) -> bool {
    e matches Effect::MoveTo { x, y } && x == p.0 && y == p.1
}

pub open spec fn is_park(e: Effect, p: (int, int)) -> bool {
    e matches Effect::Park { x, y } && x == p.0 && y == p.1
}

pub open spec fn is_show(e: Effect, l: Layout, focus: bool) -> bool {
    e matches Effect::Show { x, y, focus: f } && x == l.left() && y == l.top() && f == focus
}

/// The policy a tray click opens the shelf with: focus-loss closing in tray mode,
/// explicit closing otherwise.
pub open spec fn tray_policy(mode: OpenMode) -> ClosePolicy {
    if mode == OpenMode::Tray {
        ClosePolicy::Blur
    } else {
        ClosePolicy::Manual
    }
}

/// Where a window rests, closed, under an open mode: the sliver in tab mode,
/// off screen otherwise.
pub fn rest_position(mode: OpenMode, l: &Layout) -> (r: (i32, i32))
    requires
        l.sliver_fits() && l.top_fits(),
    ensures
        (r.0 as int, r.1 as int) == rest_point(*l, mode == OpenMode::Tab),
{
    match mode {
        OpenMode::Tab => (sliver_x(l), shelf_y(l)),
        _ => (PARK_X, 0),
    }
}

impl ShelfState {
    #[verifier::type_invariant]
    spec fn well_formed(self) -> bool {
        !self.visible ==> self.close_policy == ClosePolicy::CursorPark
    }

    /// A closed shelf with the given open mode.
    pub fn new(open_mode: OpenMode) -> (r: ShelfState)
        ensures
            r@ == (ShelfView { visible: false, close_policy: ClosePolicy::CursorPark, open_mode }),
            r@.inv(),
    {
        ShelfState { visible: false, close_policy: ClosePolicy::CursorPark, open_mode }
    }

    pub fn visible(&self) -> (r: bool)
        ensures
            r == self@.visible,
    {
        self.visible
    }

    pub fn close_policy(&self) -> (r: ClosePolicy)
        ensures
            r == self@.close_policy,
    {
        self.close_policy
    }

    pub fn open_mode(&self) -> (r: OpenMode)
        ensures
            r == self@.open_mode,
    {
        self.open_mode
    }

    /// Opens the shelf with a close policy. An open shelf is left as it is;
    /// a closed one is shown at its place, taking the focus only under the
    /// focus-loss policy (a drag in progress must keep it).
    pub fn do_show_shelf(&mut self, l: &Layout, policy: ClosePolicy) -> (r: Effect)
        requires
            l.left_fits() && l.top_fits(),
        ensures
            final(self)@ == old(self)@.opened(policy),
            old(self)@.visible ==> r == Effect::Stay,
            !old(self)@.visible ==> is_show(r, *l, policy == ClosePolicy::Blur),
            final(self)@.inv(),
    {
        let r = if self.visible {
            Effect::Stay
        } else {
            let x = shelf_x(l);
            let y = shelf_y(l);
            *self = ShelfState { visible: true, close_policy: policy, open_mode: self.open_mode };
            Effect::Show { x, y, focus: policy == ClosePolicy::Blur }
        };
        proof {
            use_type_invariant(&*self);
        }
        r
    }

    /// Closes the shelf. A closed shelf is left as it is; an open one is closed,
    /// its policy reset, and parked at the sliver when it was opened from the
    /// sliver, off screen otherwise.
    pub fn do_hide_shelf(&mut self, l: &Layout) -> (r: Effect)
        requires
            l.sliver_fits() && l.top_fits(),
        ensures
            final(self)@ == old(self)@.closed(),
            !old(self)@.visible ==> r == Effect::Stay,
            old(self)@.visible ==> is_park(
                r,
                rest_point(*l, old(self)@.close_policy == ClosePolicy::CursorSliver),
            ),
            final(self)@.inv(),
    {
        if !self.visible {
            proof {
                use_type_invariant(&*self);
            }
            return Effect::Stay;
        }
        let policy = self.close_policy;
        *self = ShelfState {
            visible: false,
            close_policy: ClosePolicy::CursorPark,
            open_mode: self.open_mode,
        };
        if policy == ClosePolicy::CursorSliver {
            Effect::Park { x: sliver_x(l), y: shelf_y(l) }
        } else {
            Effect::Park { x: PARK_X, y: 0 }
        }
    }

    /// Opens the shelf until it is closed explicitly.
    pub fn show_shelf(&mut self, l: &Layout) -> (r: Effect)
        requires
            l.left_fits() && l.top_fits(),
        ensures
            final(self)@ == old(self)@.opened(ClosePolicy::Manual),
            old(self)@.visible ==> r == Effect::Stay,
            !old(self)@.visible ==> is_show(r, *l, false),
            final(self)@.inv(),
    {
        self.do_show_shelf(l, ClosePolicy::Manual)
    }

    /// The tray's show/hide entry: closes an open shelf; opens a closed one, with
    /// focus-loss closing in tray mode and explicit closing in the other modes.
    pub fn toggle_from_tray(&mut self, l: &Layout) -> (r: Effect)
        requires
            l.left_fits() && l.top_fits() && l.sliver_fits(),
        ensures
            old(self)@.visible ==> final(self)@ == old(self)@.closed() && is_park(
                r,
                rest_point(*l, old(self)@.close_policy == ClosePolicy::CursorSliver),
            ),
            !old(self)@.visible ==> final(self)@ == old(self)@.opened(
                tray_policy(old(self)@.open_mode),
            ) && is_show(r, *l, old(self)@.open_mode == OpenMode::Tray),
            final(self)@.inv(),
    {
        if self.visible {
            self.do_hide_shelf(l)
        } else if self.open_mode == OpenMode::Tray {
            self.do_show_shelf(l, ClosePolicy::Blur)
        } else {
            self.do_show_shelf(l, ClosePolicy::Manual)
        }
    }

    /// The window lost the focus: that closes the shelf only under the focus-loss
    /// policy.
    pub fn on_focus_lost(&mut self, l: &Layout) -> (r: Effect)
        requires
            l.sliver_fits() && l.top_fits(),
        ensures
            old(self)@.close_policy == ClosePolicy::Blur ==> final(self)@ == old(self)@.closed() && (
            old(self)@.visible ==> is_park(r, rest_point(*l, false))),
            old(self)@.close_policy != ClosePolicy::Blur ==> final(self)@ == old(self)@ && r
                == Effect::Stay,
            final(self)@.inv(),
    {
        proof {
            use_type_invariant(&*self);
        }
        if self.close_policy == ClosePolicy::Blur {
            self.do_hide_shelf(l)
        } else {
            Effect::Stay
        }
    }

    /// Changes the open mode. While the shelf is closed the window is moved at
    /// once: to the sliver when tab mode starts, off screen when it ends.
    pub fn set_open_mode(&mut self, mode: OpenMode, l: &Layout) -> (r: Effect)
        requires
            l.sliver_fits() && l.top_fits(),
        ensures
            final(self)@ == (ShelfView { open_mode: mode, ..old(self)@ }),
            !old(self)@.visible && mode == OpenMode::Tab ==> is_move_to(r, rest_point(*l, true)),
            !old(self)@.visible && mode != OpenMode::Tab && old(self)@.open_mode == OpenMode::Tab
                ==> is_move_to(r, rest_point(*l, false)),
            old(self)@.visible || (mode != OpenMode::Tab && old(self)@.open_mode != OpenMode::Tab)
                ==> r == Effect::Stay,
            final(self)@.inv(),
    {
        proof {
            use_type_invariant(&*self);
        }
        let old_mode = self.open_mode;
        *self = ShelfState {
            visible: self.visible,
            close_policy: self.close_policy,
            open_mode: mode,
        };
        if !self.visible {
            if mode == OpenMode::Tab {
                return Effect::MoveTo { x: sliver_x(l), y: shelf_y(l) };
            } else if old_mode == OpenMode::Tab {
                return Effect::MoveTo { x: PARK_X, y: 0 };
            }
        }
        Effect::Stay
    }
}

/// One sample of the cursor: its position and whether the left button is down.
#[derive(Clone, Copy, Debug)]
pub struct CursorSample {
    pub x: i32,
    pub y: i32,
    pub button_down: bool,
}

/// What the edge watcher asks for after a sample.
#[derive(Clone, Copy, Debug, PartialEq, Eq, Structural)]
pub enum PollAction {
    Nothing,
    /// Open the shelf with this close policy.
    Open(ClosePolicy),
    /// Close the shelf.
    Close,
}

/// The number of consecutive samples on the screen edge that open the shelf in
/// hover mode.
pub const HOVER_SAMPLES: u8 = 3;

/// A held button dragged into the edge strip, level with the shelf.
pub open spec fn drags_in(l: Layout, c: CursorSample) -> bool {
    c.button_down && c.x >= l.right() - DRAG_EDGE && l.in_band(c.y as int)
}

/// The cursor resting, no button held, on the very screen edge level with the shelf.
pub open spec fn rests_on_edge(l: Layout, c: CursorSample) -> bool {
    !c.button_down && c.x >= l.right() - HOVER_EDGE && l.in_band(c.y as int)
}

/// The cursor, no button held, over the tab-mode sliver.
pub open spec fn enters_sliver(l: Layout, c: CursorSample) -> bool {
    !c.button_down && c.x >= l.sliver_left() && l.in_band(c.y as int)
}

/// Policies under which the cursor leaving the shelf closes it.
pub open spec fn follows_cursor(p: ClosePolicy) -> bool {
    p == ClosePolicy::CursorPark || p == ClosePolicy::CursorSliver
}

/// The hover count after one more sample on the edge (it stops at 255).
pub open spec fn next_dwell(d: u8) -> u8 {
    if d == 255 {
        255
    } else {
        (d + 1) as u8
    }
}

impl ShelfState {
    /// The edge watcher's decision on one cursor sample, and the new count of
    /// consecutive hover samples on the edge.
    pub fn edge_poll_step(
        &self,
        l: &Layout,
        dwell: u8,
        c: CursorSample,
        drag_out_active: bool,
    ) -> (r: (PollAction, u8))
        requires
            l.wf(),
        ensures
    // A closed shelf: a drag into the edge strip opens it in every mode, to close
    // when the cursor leaves.
            !self@.visible && drags_in(*l, c) ==> r == (PollAction::Open(ClosePolicy::CursorPark), 0u8),
            // Hover mode counts samples resting on the edge; the third in a row opens it.
            !self@.visible && !drags_in(*l, c) && self@.open_mode == OpenMode::Hover && rests_on_edge(*l, c)
                ==> if next_dwell(dwell) >= HOVER_SAMPLES {
                r == (PollAction::Open(ClosePolicy::CursorPark), 0u8)
            } else {
                r == (PollAction::Nothing, next_dwell(dwell))
            },
            !self@.visible && !drags_in(*l, c) && self@.open_mode == OpenMode::Hover && !rests_on_edge(
                *l,
                c,
            ) ==> r == (PollAction::Nothing, 0u8),
            // Tab mode: entering the sliver opens it, to collapse back to the sliver.
            !self@.visible && !drags_in(*l, c) && self@.open_mode == OpenMode::Tab && enters_sliver(*l, c)
                ==> r == (PollAction::Open(ClosePolicy::CursorSliver), dwell),
            !self@.visible && !drags_in(*l, c) && self@.open_mode == OpenMode::Tab && !enters_sliver(
                *l,
                c,
            ) ==> r == (PollAction::Nothing, dwell),
            // Tray mode never opens it from the edge.
            !self@.visible && !drags_in(*l, c) && self@.open_mode == OpenMode::Tray ==> r == (
                PollAction::Nothing,
                0u8,
            ),
            // An open shelf that follows the cursor closes when the cursor is off it,
            // unless a drag-out is under way.
            self@.visible && follows_cursor(self@.close_policy) && !drag_out_active && !l.covers(
                c.x as int,
                c.y as int,
            ) ==> r == (PollAction::Close, dwell),
            self@.visible && !(follows_cursor(self@.close_policy) && !drag_out_active && !l.covers(
                c.x as int,
                c.y as int,
            )) ==> r == (PollAction::Nothing, dwell),
            // Taken together: it only opens a closed shelf, only closes an open one, and
            // the hover count stays below `HOVER_SAMPLES`.
            r.0 is Open ==> !self@.visible,
            r.0 is Close ==> self@.visible && follows_cursor(self@.close_policy) && !drag_out_active
                && !l.covers(c.x as int, c.y as int),
            dwell < HOVER_SAMPLES ==> r.1 < HOVER_SAMPLES,
            // Read on the geometry itself: it opens only for a cursor level with the
            // shelf, at or right of the sliver's left edge.
            r.0 is Open ==> l.top() <= c.y < l.top() + l.height(),
            r.0 is Open ==> c.x >= l.right() - 30 || c.x >= l.sliver_left(),
            // An open shelf under either cursor policy closes when a sample is off it
            // (left of it, right of the screen, above or below it) and no drag-out
            // is under way; under the other policies it never closes here.
            self@.visible && (self@.close_policy == ClosePolicy::CursorPark || self@.close_policy
                == ClosePolicy::CursorSliver) && !drag_out_active && (c.x < l.left() || c.x
                >= l.right() || c.y < l.top() || c.y >= l.top() + l.height()) ==> r == (
                PollAction::Close,
                dwell,
            ),
            (self@.close_policy == ClosePolicy::Blur || self@.close_policy == ClosePolicy::Manual)
                ==> r.0 != PollAction::Close,
            // In tab mode a closed shelf opens from the sliver, level with the shelf, with
            // no button held, to collapse back to the sliver.
            !self@.visible && self@.open_mode == OpenMode::Tab && !c.button_down && c.x
                >= l.sliver_left() && l.top() <= c.y < l.top() + l.height() ==> r == (
                PollAction::Open(ClosePolicy::CursorSliver),
                dwell,
            ),
    {
        if !self.visible {
            let band = in_y_band(l, c.y);
            let right = screen_right(l);
            if c.button_down && c.x >= right - DRAG_EDGE && band {
                (PollAction::Open(ClosePolicy::CursorPark), 0)
            } else {
                match self.open_mode {
                    OpenMode::Hover => {
                        if !c.button_down && c.x >= right - HOVER_EDGE && band {
                            let d = dwell.saturating_add(1);
                            if d >= HOVER_SAMPLES {
                                (PollAction::Open(ClosePolicy::CursorPark), 0)
                            } else {
                                (PollAction::Nothing, d)
                            }
                        } else {
                            (PollAction::Nothing, 0)
                        }
                    },
                    OpenMode::Tab => {
                        if !c.button_down && c.x >= sliver_x(l) && band {
                            (PollAction::Open(ClosePolicy::CursorSliver), dwell)
                        } else {
                            (PollAction::Nothing, dwell)
                        }
                    },
                    OpenMode::Tray => (PollAction::Nothing, 0),
                }
            }
        } else {
            let policy = self.close_policy;
            if (policy == ClosePolicy::CursorPark || policy == ClosePolicy::CursorSliver)
                && !drag_out_active {
                if !over_shelf(l, c.x, c.y) {
                    return (PollAction::Close, dwell);
                }
            }
            (PollAction::Nothing, dwell)
        }
    }
}

/// Closing undoes opening: a closed shelf that is opened under any policy and then
/// closed is back in its former state, and while open it keeps that policy, which
/// decides where closing parks it (the sliver exactly when it was opened from the
/// sliver).
pub proof fn lemma_close_undoes_open(s: ShelfView, policy: ClosePolicy)
    requires
        s.inv(),
        !s.visible,
    ensures
        s.opened(policy).visible,
        s.opened(policy).close_policy == policy,
        s.opened(policy).closed() == s,
{
}

/// Opening an open shelf and closing a closed one change nothing.
pub proof fn lemma_open_close_idempotent(s: ShelfView, p: ClosePolicy, q: ClosePolicy)
    ensures
        s.opened(p).opened(q) == s.opened(p),
        s.closed().closed() == s.closed(),
{
}

/// Two clicks on the tray's show/hide entry leave a closed shelf as it was.
pub proof fn lemma_tray_toggle_twice(s: ShelfView)
    requires
        s.inv(),
        !s.visible,
    ensures
        s.opened(tray_policy(s.open_mode)).visible,
        s.opened(tray_policy(s.open_mode)).closed() == s,
{
}

/// A closed shelf rests with its sliver showing `peek` pixels inside the right
/// screen edge, level with the open shelf, or far off screen at (-32000, 0); a tray
/// click opens it closing on focus loss in tray mode and only explicitly otherwise.
pub proof fn lemma_rest_points_and_tray_policy(l: Layout, mode: OpenMode)
    ensures
        rest_point(l, true) == (l.monitor.x + l.monitor.width - l.shelf.peek, l.top()),
        rest_point(l, false) == (-32000int, 0int),
        tray_policy(mode) == ClosePolicy::Blur <==> mode == OpenMode::Tray,
        tray_policy(mode) == ClosePolicy::Blur || tray_policy(mode) == ClosePolicy::Manual,
{
}

/// The policies that follow the cursor are exactly the two cursor policies.
pub proof fn lemma_cursor_policies()
    ensures
        follows_cursor(ClosePolicy::CursorPark),
        follows_cursor(ClosePolicy::CursorSliver),
        !follows_cursor(ClosePolicy::Blur),
        !follows_cursor(ClosePolicy::Manual),
{
}

/// Every opening condition of the edge watcher needs the cursor level with the
/// shelf: within `[top, top + height)`.
pub proof fn lemma_openings_need_the_band(l: Layout, c: CursorSample)
    ensures
        drags_in(l, c) ==> l.top() <= c.y < l.top() + l.height(),
        rests_on_edge(l, c) ==> l.top() <= c.y < l.top() + l.height(),
        enters_sliver(l, c) ==> l.top() <= c.y < l.top() + l.height(),
        enters_sliver(l, c) ==> !c.button_down && c.x >= l.sliver_left(),
        rests_on_edge(l, c) ==> !c.button_down && c.x >= l.right() - 2,
        drags_in(l, c) ==> c.button_down && c.x >= l.right() - 30,
{
}

/// In hover mode the third sample in a row on the edge opens the shelf and the
/// first two do not: counting from 0, the count reaches `HOVER_SAMPLES` exactly
/// on the third sample.
pub proof fn lemma_hover_opens_on_third_sample()
    ensures
        next_dwell(0) < HOVER_SAMPLES,
        next_dwell(next_dwell(0)) < HOVER_SAMPLES,
        next_dwell(next_dwell(next_dwell(0))) >= HOVER_SAMPLES,
{
}

} // verus!
