//! Where the shelf window goes: all positions are physical pixels on the
//! monitor the shelf lives on, with the shelf's own sizes already scaled.
use vstd::prelude::*;

verus! {

/// The x position that parks the window far off screen.
pub const PARK_X: i32 = -32000;

/// How far in from the right screen edge a held-button drag opens the shelf.
pub const DRAG_EDGE: i32 = 30;

/// How far in from the right screen edge a hovering cursor counts as on the edge.
pub const HOVER_EDGE: i32 = 2;

/// The monitor's position and size.
#[derive(Clone, Copy, Debug)]
pub struct Monitor {
    pub x: i32,
    pub y: i32,
    pub width: i32,
    pub height: i32,
}

/// The shelf's width, tallest height, gap to the right screen edge, and how much
/// of it peeks out as a sliver in tab mode.
#[derive(Clone, Copy, Debug)]
pub struct ShelfMetrics {
    pub width: i32,
    pub max_height: i32,
    pub gap: i32,
    pub peek: i32,
}

#[derive(Clone, Copy, Debug)]
pub struct Layout {
    pub monitor: Monitor,
    pub shelf: ShelfMetrics,
}

pub open spec fn fits_i32(v: int) -> bool {
    i32::MIN <= v <= i32::MAX
}

impl Layout {
    pub open spec fn right(self) -> int {
        self.monitor.x + self.monitor.width
    }

    pub open spec fn height(self) -> int {
        if self.monitor.height <= self.shelf.max_height {
            self.monitor.height as int
        } else {
            self.shelf.max_height as int
        }
    }

    pub open spec fn left(self) -> int {
        self.right() - self.shelf.width - self.shelf.gap
    }

    pub open spec fn top(self) -> int {
        self.monitor.y + (self.monitor.height - self.height()) / 2
    }

    pub open spec fn sliver_left(self) -> int {
        self.right() - self.shelf.peek
    }

    /// The right screen edge fits in an `i32`.
    pub open spec fn right_fits(self) -> bool {
        fits_i32(self.right())
    }

    /// The sums that give the shelf's left edge fit in an `i32`.
    pub open spec fn left_fits(self) -> bool {
        &&& self.right_fits()
        &&& fits_i32(self.right() - self.shelf.width)
        &&& fits_i32(self.left())
    }

    /// The sums that give the shelf's top edge fit in an `i32`.
    pub open spec fn top_fits(self) -> bool {
        &&& fits_i32(self.monitor.height - self.height())
        &&& fits_i32(self.top())
    }

    /// The sums that give the shelf's vertical band fit in an `i32`.
    pub open spec fn band_fits(self) -> bool {
        &&& self.top_fits()
        &&& fits_i32(self.top() + self.height())
    }

    /// The sums that give the sliver's left edge fit in an `i32`.
    pub open spec fn sliver_fits(self) -> bool {
        &&& self.right_fits()
        &&& fits_i32(self.sliver_left())
    }

    /// Every value the placement and the edge watcher compute fits in an `i32`.
    pub open spec fn wf(self) -> bool {
        &&& self.left_fits()
        &&& self.band_fits()
        &&& self.sliver_fits()
        &&& fits_i32(self.right() - DRAG_EDGE)
    }

    /// Whether a cursor height is level with the shelf.
    pub open spec fn in_band(self, y: int) -> bool {
        self.top() <= y < self.top() + self.height()
    }

    /// Whether a cursor point is over the open shelf (or the gap to its right).
    pub open spec fn covers(self, x: int, y: int) -> bool {
        self.left() <= x < self.right() && self.in_band(y)
    }
}

fn fits_i64(v: i64) -> (r: bool)
    ensures
        r == fits_i32(v as int),
{
    i32::MIN as i64 <= v && v <= i32::MAX as i64
}

impl Layout {
    /// Whether every value the placement computes fits in an `i32` (callers test
    /// this before placing the shelf).
    pub fn fits(&self) -> (r: bool)
        ensures
            r == self.wf(),
    {
        let x = self.monitor.x as i64;
        let w = self.monitor.width as i64;
        let right = x + w;
        let h = shelf_h(self) as i64;
        let mh = self.monitor.height as i64;
        let top = self.monitor.y as i64 + (mh - h) / 2;
        fits_i64(right) && fits_i64(right - self.shelf.width as i64) && fits_i64(
            right - self.shelf.width as i64 - self.shelf.gap as i64,
        ) && fits_i64(mh - h) && fits_i64(top) && fits_i64(top + h) && fits_i64(
            right - self.shelf.peek as i64,
        ) && fits_i64(right - DRAG_EDGE as i64)
    }
}

/// The right edge of the monitor.
pub fn screen_right(l: &Layout) -> (r: i32)
    requires
        l.right_fits(),
    ensures
        r == l.right(),
{
    l.monitor.x + l.monitor.width
}

/// The shelf's height: the monitor's height, but no more than the shelf's tallest.
pub fn shelf_h(l: &Layout) -> (r: i32)
    ensures
        r == l.height(),
        r <= l.monitor.height,
        r <= l.shelf.max_height,
{
    if l.monitor.height <= l.shelf.max_height {
        l.monitor.height
    } else {
        l.shelf.max_height
    }
}

/// The open shelf's left edge: its width and the gap in from the right screen edge.
pub fn shelf_x(l: &Layout) -> (r: i32)
    requires
        l.left_fits(),
    ensures
        r == l.left(),
        r + l.shelf.width + l.shelf.gap == l.right(),
{
    screen_right(l) - l.shelf.width - l.shelf.gap
}

/// The shelf's top edge: vertically centred on the monitor.
pub fn shelf_y(l: &Layout) -> (r: i32)
    requires
        l.top_fits(),
    ensures
        r == l.top(),
{
    let h = shelf_h(l);
    l.monitor.y + (l.monitor.height - h) / 2
}

/// The left edge of the sliver that stays on screen in tab mode.
pub fn sliver_x(l: &Layout) -> (r: i32)
    requires
        l.sliver_fits(),
    ensures
        r == l.sliver_left(),
        r + l.shelf.peek == l.right(),
{
    screen_right(l) - l.shelf.peek
}

/// Whether a cursor height is level with the shelf.
pub fn in_y_band(l: &Layout, y: i32) -> (r: bool)
    requires
        l.band_fits(),
    ensures
        r == l.in_band(y as int),
{
    let sy = shelf_y(l);
    let sh = shelf_h(l);
    y >= sy && y < sy + sh
}

/// Whether a cursor point is over the open shelf, or between it and the right
/// screen edge.
pub fn over_shelf(l: &Layout, x: i32, y: i32) -> (r: bool)
    requires
        l.left_fits() && l.band_fits(),
    ensures
        r == l.covers(x as int, y as int),
{
    let sx = shelf_x(l);
    let sr = screen_right(l);
    x >= sx && x < sr && in_y_band(l, y)
}

/// The shelf is centred vertically on the monitor and stays within its height:
/// the space left above it and the space left below it differ by at most a pixel.
pub proof fn lemma_shelf_centred(l: Layout)
    requires
        l.monitor.height >= 0,
        l.shelf.max_height >= 0,
    ensures
        l.monitor.y <= l.top(),
        l.top() + l.height() <= l.monitor.y + l.monitor.height,
        0 <= (l.monitor.y + l.monitor.height - (l.top() + l.height())) - (l.top() - l.monitor.y)
            <= 1,
{
}

/// The open shelf ends the gap short of the right screen edge, and the tab sliver
/// shows `peek` pixels of it inside the screen.
pub proof fn lemma_shelf_against_right_edge(l: Layout)
    ensures
        l.left() + l.shelf.width + l.shelf.gap == l.right(),
        l.sliver_left() + l.shelf.peek == l.right(),
        l.shelf.peek > 0 ==> l.sliver_left() < l.right(),
{
}

} // verus!
