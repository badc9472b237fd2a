//! Reader state and the preload window.
//!
//! The window is the contiguous index range around the focus that should be
//! kept loaded; the paged state tracks the page the reader shows and how
//! page turns move it.

use vstd::prelude::*;

use crate::loader::TextureOption;
use crate::{now_millis, UnsignedExt};
use core::ops::Range;

verus! {

/// The window's lower bound: the focus pulled back by the preload count,
/// clamped into the collection.
pub open spec fn spec_window_start(index: int, prev: int, max: int) -> int {
    let sat = if index >= prev {
        index - prev
    } else {
        0
    };
    let cap = if index <= max {
        index
    } else {
        max
    };
    if sat <= cap {
        sat
    } else {
        cap
    }
}

/// The window's upper bound: one past the focus pushed forward by the
/// preload count, clamped into the collection; an overflowing sum saturates
/// at the collection's end.
pub open spec fn spec_window_end(index: int, next: int, max: int) -> int {
    let hi = if index + next + 1 > usize::MAX {
        max
    } else {
        index + next + 1
    };
    let hi_cap = if hi <= max {
        hi
    } else {
        max
    };
    let lo = if index + 1 <= max {
        index + 1
    } else {
        max
    };
    if hi_cap >= lo {
        hi_cap
    } else {
        lo
    }
}

/// The reader's load setting: focus index, how many entries to preload on
/// each side, and how textures sample.
#[derive(PartialEq, Eq, Clone, Copy, Debug, Structural)]
pub struct ReaderLoaderSetting {
    pub index: usize,
    pub preload_prev: usize,
    pub preload_next: usize,
    pub texture_option: TextureOption,
}

impl ReaderLoaderSetting {
    /// The preload window over a collection of `max` entries: a sub-range of
    /// `[0, max)` that contains the focus whenever the focus is inside the
    /// collection.
    pub fn range(&self, max: usize) -> (r: Range<usize>)
        ensures
            r.start == spec_window_start(self.index as int, self.preload_prev as int, max as int),
            r.end == spec_window_end(self.index as int, self.preload_next as int, max as int),
            r.start <= r.end <= max,
            self.index < max ==> r.start <= self.index < r.end,
    {
        let sat: usize = if self.index >= self.preload_prev {
            self.index - self.preload_prev
        } else {
            0
        };
        let cap: usize = if self.index <= max {
            self.index
        } else {
            max
        };
        let lo: usize = if sat <= cap {
            sat
        } else {
            cap
        };
        let hi: usize = match self.index.checked_add(self.preload_next) {
            Some(sum) => {
                if sum < usize::MAX && sum + 1 <= max {
                    sum + 1
                } else {
                    max
                }
            },
            None => max,
        };
        let low_bound: usize = if self.index < max {
            self.index + 1
        } else {
            max
        };
        let end: usize = if hi >= low_bound {
            hi
        } else {
            low_bound
        };
        Range { start: lo, end }
    }
}

/// Which way the reader lays pages out.
#[derive(Clone, Copy, PartialEq, Eq, Debug, Structural)]
pub enum ReaderMode {
    Vertical,
    Paged,
}

impl Default for ReaderMode {
    /// Paged reading.
    fn default() -> (r: Self)
        ensures
            r == ReaderMode::Paged,
    {
        ReaderMode::Paged
    }
}

/// Settings of the paged mode.
#[derive(Clone, Copy, PartialEq, Eq, Debug, Default, Structural)]
pub struct ReaderPagedSetting {
    pub read_from_right: bool,
}

/// How the reader fits a page into the viewport: whether to shrink pages
/// that overflow, enlarge pages that underflow, the percentage to fit to,
/// and which axes to fit at all.
#[derive(Clone, Copy, PartialEq, Eq, Debug, Structural)]
pub struct Sizer {
    pub shrink: bool,
    pub enlarge: bool,
    pub fit_to_scale: u64,
    pub fit_horizontal: bool,
    pub fit_vertical: bool,
}

impl Default for Sizer {
    /// No fitting at natural scale.
    fn default() -> (r: Self)
        ensures
            !r.shrink,
            !r.enlarge,
            r.fit_to_scale == 100,
            !r.fits_horizontal(),
            !r.fits_vertical(),
    {
        Sizer {
            shrink: false,
            enlarge: false,
            fit_to_scale: 100,
            fit_horizontal: false,
            fit_vertical: false,
        }
    }
}

impl Sizer {
    /// Whether the horizontal axis is fitted.
    pub open spec fn fits_horizontal(&self) -> bool {
        self.fit_horizontal
    }

    /// Whether the vertical axis is fitted.
    pub open spec fn fits_vertical(&self) -> bool {
        self.fit_vertical
    }

    /// Turn horizontal fitting on or off.
    pub fn set_fit_horizontal(&mut self, fit: bool)
        ensures
            final(self).fits_horizontal() == fit,
            final(self).fits_vertical() == old(self).fits_vertical(),
            final(self).shrink == old(self).shrink,
            final(self).enlarge == old(self).enlarge,
            final(self).fit_to_scale == old(self).fit_to_scale,
    {
        self.fit_horizontal = fit;
    }

    /// The horizontal fit flag, for a settings form to edit in place.
    pub fn fit_horizontal_mut(&mut self) -> (r: &mut bool)
        ensures
            *r == old(self).fit_horizontal,
            final(self).fit_horizontal == *final(r),
            final(self).fit_vertical == old(self).fit_vertical,
            final(self).shrink == old(self).shrink,
            final(self).enlarge == old(self).enlarge,
            final(self).fit_to_scale == old(self).fit_to_scale,
    {
        &mut self.fit_horizontal
    }

    /// The vertical fit flag, for a settings form to edit in place.
    pub fn fit_vertical_mut(&mut self) -> (r: &mut bool)
        ensures
            *r == old(self).fit_vertical,
            final(self).fit_vertical == *final(r),
            final(self).fit_horizontal == old(self).fit_horizontal,
            final(self).shrink == old(self).shrink,
            final(self).enlarge == old(self).enlarge,
            final(self).fit_to_scale == old(self).fit_to_scale,
    {
        &mut self.fit_vertical
    }

    /// Turn vertical fitting on or off.
    pub fn set_fit_vertical(&mut self, fit: bool)
        ensures
            final(self).fits_vertical() == fit,
            final(self).fits_horizontal() == old(self).fits_horizontal(),
            final(self).shrink == old(self).shrink,
            final(self).enlarge == old(self).enlarge,
            final(self).fit_to_scale == old(self).fit_to_scale,
    {
        self.fit_vertical = fit;
    }
}

/// The whole reader setting.
#[derive(Clone, Copy, PartialEq, Eq, Debug, Structural)]
pub struct ReaderSetting {
    pub mode: ReaderMode,
    pub paged: ReaderPagedSetting,
    pub sizer: Sizer,
    pub scroll_per_arrow: i32,
    pub scroll_per_page: i32,
}

impl Default for ReaderSetting {
    /// Paged mode, no fitting, arrow and page scroll steps of 300 and 900.
    fn default() -> (r: Self)
        ensures
            r.mode == ReaderMode::Paged,
            !r.paged.read_from_right,
            r.scroll_per_arrow == 300,
            r.scroll_per_page == 900,
    {
        ReaderSetting {
            mode: ReaderMode::Paged,
            paged: ReaderPagedSetting { read_from_right: false },
            sizer: Sizer::default(),
            scroll_per_arrow: 300,
            scroll_per_page: 900,
        }
    }
}

/// Milliseconds a reading of the clock lies after another; a clock that went
/// backwards reads as no time passed.
pub open spec fn spec_elapsed(from_ms: u64, now_ms: u64) -> int {
    if now_ms >= from_ms {
        now_ms - from_ms
    } else {
        0
    }
}

/// The page indicator's visibility: shown for a fixed time after each reset.
#[derive(Clone, Copy, PartialEq, Eq, Debug, Structural)]
pub struct HideTextState {
    pub last_reset_ms: u64,
    pub duration_ms: u64,
}

impl Default for HideTextState {
    /// Shown for one second, counted from now.
    fn default() -> (r: Self)
        ensures
            r.duration_ms == 1000,
    {
        HideTextState { last_reset_ms: now_millis(), duration_ms: 1000 }
    }
}

impl HideTextState {
    /// Start the visibility span anew, from the present reading of the clock.
    pub fn reset(&mut self)
        ensures
            final(self).duration_ms == old(self).duration_ms,
    {
        self.last_reset_ms = now_millis();
    }

    /// Whether the indicator is still shown at the given reading of the
    /// clock.
    pub fn should_show_at(&self, now_ms: u64) -> (r: bool)
        ensures
            r == (spec_elapsed(self.last_reset_ms, now_ms) < self.duration_ms),
    {
        let elapsed: u64 = if now_ms >= self.last_reset_ms {
            now_ms - self.last_reset_ms
        } else {
            0
        };
        elapsed < self.duration_ms
    }

    /// Whether the indicator is still shown now; what the clock reads is the
    /// collaborator's to say.
    pub fn should_show(&self) -> bool {
        self.should_show_at(now_millis())
    }
}

/// Which way a page turn leaves the scroll position: at the start of the new
/// page, or snapped to an edge so backward turns land at a page's end.
#[derive(Clone, Copy, PartialEq, Eq, Debug, Structural)]
pub struct ScrollSnap {
    pub to_end_horizontal: bool,
    pub to_end_vertical: bool,
}

/// State of the paged reader: the page it shows and how turns move it.
#[derive(Clone, Debug)]
pub struct PagedReaderState {
    pub snap: ScrollSnap,
    pub sizer: Sizer,
    pub index: usize,
    pub id: String,
    pub read_from_right: bool,
    pub index_text: HideTextState,
}

impl PagedReaderState {
    /// Fresh state at the first page.
    pub fn new() -> (r: Self)
        ensures
            r.index == 0,
            !r.read_from_right,
            !r.snap.to_end_horizontal,
            !r.snap.to_end_vertical,
    {
        PagedReaderState {
            snap: ScrollSnap { to_end_horizontal: false, to_end_vertical: false },
            sizer: Sizer::default(),
            index: 0,
            id: String::new(),
            read_from_right: false,
            index_text: HideTextState::default(),
        }
    }

    /// Move the shown page by `step`, keeping it inside `[0, limit)`; a move
    /// that would leave the range, or not move at all, changes nothing.
    /// `true` exactly when the page changed.
    pub fn change_index_by(&mut self, step: isize, limit: usize) -> (r: bool)
        ensures
            r == (0 <= old(self).index + step < limit && step != 0),
            r ==> final(self).index == old(self).index + step,
            r ==> final(self).snap.to_end_horizontal == (step > 0 && old(self).read_from_right
                || step < 0 && !old(self).read_from_right) && final(self).snap.to_end_vertical == (
            step < 0) && final(self).index_text.duration_ms == old(self).index_text.duration_ms,
            !r ==> final(self).index == old(self).index && final(self).snap == old(self).snap
                && final(self).index_text == old(self).index_text,
            final(self).read_from_right == old(self).read_from_right,
            final(self).sizer == old(self).sizer,
            final(self).id == old(self).id,
    {
        let index = self.index.checked_add_signed_ext(step);
        if let Some(index) = index {
            if index < limit {
                let changed = self.index != index;
                if changed {
                    self.reset(step);
                    self.index = index;
                    return true;
                }
            }
        }
        false
    }

    /// Start a new page: the indicator shows again, and the scroll snaps to
    /// the edge a turn in this direction should land on — a backward turn
    /// lands at the page's end, and under right-to-left reading the
    /// horizontal edge is mirrored.
    pub fn reset(&mut self, step: isize)
        ensures
            final(self).index == old(self).index,
            final(self).read_from_right == old(self).read_from_right,
            final(self).sizer == old(self).sizer,
            final(self).id == old(self).id,
            final(self).index_text.duration_ms == old(self).index_text.duration_ms,
            final(self).snap.to_end_horizontal == (step > 0 && old(self).read_from_right || step
                < 0 && !old(self).read_from_right),
            final(self).snap.to_end_vertical == (step < 0),
    {
        self.index_text.reset();
        let mut to_end_horizontal: bool = false;
        let mut to_end_vertical: bool = false;
        if step > 0 && self.read_from_right {
            to_end_horizontal = true;
        } else if step < 0 {
            to_end_vertical = true;
            if !self.read_from_right {
                to_end_horizontal = true;
            }
        }
        self.snap = ScrollSnap { to_end_horizontal, to_end_vertical };
    }
}

} // verus!
