//! The windowed scheduler: which tasks to cancel and which to spawn when
//! the focus or the window size changes.
//!
//! The scheduler owns the entry list and their result slots; on each setting
//! change it recomputes the preload window, cancels the live task of every
//! entry that fell out of it (resetting that entry's slot so it can be
//! resumed later), and spawns a task for every entry inside it that has no
//! live task and still shows as loading.

use vstd::prelude::*;

use crate::reader::{spec_window_end, spec_window_start, ReaderLoaderSetting};

verus! {

/// What one entry's result slot shows.
#[derive(Clone, Copy, PartialEq, Eq, Debug, Structural)]
pub enum SlotState {
    /// Nothing delivered yet; a placeholder spins.
    Loading,
    /// A decoded result was delivered.
    Ready,
    /// The entry could not be decoded; a placeholder stands.
    Failed,
}

/// One entry as the scheduler tracks it: whether a load task is live, and
/// what the entry's slot shows.
#[derive(Clone, Copy, PartialEq, Eq, Debug, Structural)]
pub struct EntryTask {
    pub live: bool,
    pub slot: SlotState,
}

/// What a setting change asks of the driver: the tasks to cancel and the
/// tasks to spawn, by entry index.
pub struct SchedulePlan {
    pub cancels: Vec<usize>,
    pub spawns: Vec<usize>,
}

/// An index is cancelled when its task is live and it fell outside the
/// window.
pub open spec fn spec_should_cancel(e: EntryTask, i: int, lo: int, hi: int) -> bool {
    e.live && !(lo <= i < hi)
}

/// An index is spawned when it lies inside the window, has no live task, and
/// its slot still shows as loading.
pub open spec fn spec_should_spawn(e: EntryTask, i: int, lo: int, hi: int) -> bool {
    !e.live && e.slot is Loading && lo <= i < hi
}

/// The scheduler's whole state: the entries of one scheduling session and
/// the current setting.
pub struct WindowedScheduler {
    pub entries: Vec<EntryTask>,
    pub setting: ReaderLoaderSetting,
}

impl WindowedScheduler {
    /// The window the current setting asks for.
    pub open spec fn window_start(&self) -> int {
        spec_window_start(
            self.setting.index as int,
            self.setting.preload_prev as int,
            self.entries@.len() as int,
        )
    }

    /// One past the window's last index.
    pub open spec fn window_end(&self) -> int {
        spec_window_end(
            self.setting.index as int,
            self.setting.preload_next as int,
            self.entries@.len() as int,
        )
    }

    /// A session over `total` entries, all loading with no live task.
    pub fn new(total: usize, setting: ReaderLoaderSetting) -> (r: Self)
        ensures
            r.entries@.len() == total,
            forall|i: int|
                0 <= i < total ==> r.entries@[i] == (EntryTask {
                    live: false,
                    slot: SlotState::Loading,
                }),
            r.setting == setting,
    {
        let mut entries: Vec<EntryTask> = Vec::new();
        let mut i: usize = 0;
        while i < total
            invariant
                i <= total,
                entries@.len() == i,
                forall|j: int|
                    0 <= j < i ==> entries@[j] == (EntryTask {
                        live: false,
                        slot: SlotState::Loading,
                    }),
            decreases total - i,
        {
            entries.push(EntryTask { live: false, slot: SlotState::Loading });
            i = i + 1;
        }
        WindowedScheduler { entries, setting }
    }

    /// Record what a finished task delivered for one entry; its task is no
    /// longer live.
    pub fn task_finished(&mut self, index: usize, slot: SlotState)
        requires
            index < old(self).entries@.len(),
        ensures
            final(self).entries@ == old(self).entries@.update(
                index as int,
                EntryTask { live: false, slot },
            ),
            final(self).setting == old(self).setting,
    {
        self.entries.set(index, EntryTask { live: false, slot });
    }

    /// React to a setting change: adopt the new setting, cancel every live
    /// task outside the new window (its slot shows as loading again), mark
    /// every spawned entry's task live, and return the plan. Each index
    /// appears in the plan exactly when the rule asks it: a cancel for a
    /// live task outside the window, a spawn for a loading entry inside it
    /// without one.
    pub fn on_setting_change(&mut self, setting: ReaderLoaderSetting) -> (plan: SchedulePlan)
        ensures
            final(self).setting == setting,
            final(self).entries@.len() == old(self).entries@.len(),
            forall|i: int|
                0 <= i < old(self).entries@.len() ==> #[trigger] plan.cancels@.contains(i as usize)
                    == spec_should_cancel(
                    old(self).entries@[i],
                    i,
                    final(self).window_start(),
                    final(self).window_end(),
                ),
            forall|i: int|
                0 <= i < old(self).entries@.len() ==> #[trigger] plan.spawns@.contains(i as usize)
                    == spec_should_spawn(
                    old(self).entries@[i],
                    i,
                    final(self).window_start(),
                    final(self).window_end(),
                ),
            forall|i: int|
                0 <= i < old(self).entries@.len() ==> #[trigger] final(self).entries@[i] == (if
                spec_should_cancel(
                    old(self).entries@[i],
                    i,
                    final(self).window_start(),
                    final(self).window_end(),
                ) {
                    EntryTask { live: false, slot: SlotState::Loading }
                } else if spec_should_spawn(
                    old(self).entries@[i],
                    i,
                    final(self).window_start(),
                    final(self).window_end(),
                ) {
                    EntryTask { live: true, slot: SlotState::Loading }
                } else {
                    old(self).entries@[i]
                }),
    {
        self.setting = setting;
        let total: usize = self.entries.len();
        let window = self.setting.range(total);
        let ghost lo = self.window_start();
        let ghost hi = self.window_end();
        let mut cancels: Vec<usize> = Vec::new();
        let mut spawns: Vec<usize> = Vec::new();
        let mut i: usize = 0;
        while i < total
            invariant
                self.setting == setting,
                total == self.entries@.len() == old(self).entries@.len(),
                lo == self.window_start(),
                hi == self.window_end(),
                window.start == lo,
                window.end == hi,
                i <= total,
                forall|j: int| i <= j < total ==> self.entries@[j] == old(self).entries@[j],
                forall|j: int|
                    0 <= j < i ==> #[trigger] self.entries@[j] == (if spec_should_cancel(
                        old(self).entries@[j],
                        j,
                        lo,
                        hi,
                    ) {
                        EntryTask { live: false, slot: SlotState::Loading }
                    } else if spec_should_spawn(old(self).entries@[j], j, lo, hi) {
                        EntryTask { live: true, slot: SlotState::Loading }
                    } else {
                        old(self).entries@[j]
                    }),
                forall|v: usize| #[trigger]
                    cancels@.contains(v) ==> v < i && spec_should_cancel(
                        old(self).entries@[v as int],
                        v as int,
                        lo,
                        hi,
                    ),
                forall|j: int|
                    0 <= j < i && spec_should_cancel(old(self).entries@[j], j, lo, hi)
                        ==> #[trigger] cancels@.contains(j as usize),
                forall|v: usize| #[trigger]
                    spawns@.contains(v) ==> v < i && spec_should_spawn(
                        old(self).entries@[v as int],
                        v as int,
                        lo,
                        hi,
                    ),
                forall|j: int|
                    0 <= j < i && spec_should_spawn(old(self).entries@[j], j, lo, hi)
                        ==> #[trigger] spawns@.contains(j as usize),
            decreases total - i,
    {
            let entry = self.entries[i];
            let inside = window.start <= i && i < window.end;
            if entry.live && !inside {
                let ghost pre = cancels@;
                cancels.push(i);
                self.entries.set(i, EntryTask { live: false, slot: SlotState::Loading });
                proof {
                    lemma_push_contains(pre, i);
                }
            } else if !entry.live && matches!(entry.slot, SlotState::Loading) && inside {
                let ghost pre = spawns@;
                spawns.push(i);
                self.entries.set(i, EntryTask { live: true, slot: SlotState::Loading });
                proof {
                    lemma_push_contains(pre, i);
                }
            }
            i = i + 1;
        }
        SchedulePlan { cancels, spawns }
    }
}

/// What a pushed sequence contains: the old contents and the new element.
proof fn lemma_push_contains(s: Seq<usize>, x: usize)
    ensures
        forall|v: usize| #[trigger]
            s.push(x).contains(v) <==> s.contains(v) || v == x,
{
    assert forall|v: usize| #[trigger] s.push(x).contains(v) implies s.contains(v) || v == x by {
        let i = choose|i: int| 0 <= i < s.push(x).len() && s.push(x)[i] == v;
        if i < s.len() {
            assert(s[i] == v);
        }
    }
    assert forall|v: usize| s.contains(v) || v == x implies #[trigger] s.push(x).contains(v) by {
        if s.contains(v) {
            let i = choose|i: int| 0 <= i < s.len() && s[i] == v;
            assert(s.push(x)[i] == v);
        } else {
            assert(s.push(x)[s.len() as int] == v);
        }
    }
}

} // verus!
