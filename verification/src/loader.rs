//! Loader settings and the priority admission semaphore.
//!
//! The semaphore bounds decode concurrency but does not grant slots in
//! arrival order: when a slot frees up, it goes to whichever waiter is most
//! preferred under the visit order computed from the focus index as it is at
//! that moment.

use vstd::prelude::*;

use crate::{interleave_elem, interleave_pos, lemma_interleave_permutation, split_and_interleave_at};
use core::ops::Range;

verus! {

/// Which filter the resize collaborator applies.
#[derive(Clone, Copy, PartialEq, Eq, Debug, Structural)]
pub enum FilterType {
    /// Nearest Neighbor
    Nearest,
    /// Linear Filter
    Triangle,
    /// Cubic Filter
    CatmullRom,
    /// Gaussian Filter
    Gaussian,
    /// Lanczos with window 3
    Lanczos3,
}

impl Default for FilterType {
    /// Nearest-neighbor filtering.
    fn default() -> (r: Self)
        ensures
            r == FilterType::Nearest,
    {
        FilterType::Nearest
    }
}

/// How allocated textures sample when drawn scaled: linear filtering for
/// magnification and for minification.
#[derive(Clone, Copy, PartialEq, Eq, Debug, Default, Structural)]
pub struct TextureOption {
    pub linear_magnification: bool,
    pub linear_minification: bool,
}

/// Per-entry load settings: resize filter, the bound the thumbnail is
/// resized into, and how its texture samples.
#[derive(Clone, Copy, PartialEq, Eq, Debug)]
pub struct ExplorerEntryLoaderSetting {
    pub filter: FilterType,
    pub max_resize: (u32, u32),
    pub texture_option: TextureOption,
}

impl Default for ExplorerEntryLoaderSetting {
    /// Nearest filtering into a 300 by 300 bound.
    fn default() -> (r: Self)
        ensures
            r.filter == FilterType::Nearest,
            r.max_resize == (300u32, 300u32),
            r.texture_option == (TextureOption {
                linear_magnification: false,
                linear_minification: false,
            }),
    {
        ExplorerEntryLoaderSetting {
            filter: FilterType::Nearest,
            max_resize: (300, 300),
            texture_option: TextureOption { linear_magnification: false, linear_minification: false },
        }
    }
}

/// The whole-collection load setting: the focus index and the per-entry
/// settings.
#[derive(Clone, Copy, PartialEq, Eq, Debug)]
pub struct ExplorerLoaderSetting {
    pub index: usize,
    pub entry_setting: ExplorerEntryLoaderSetting,
}

impl Default for ExplorerLoaderSetting {
    /// Focus at the first entry.
    fn default() -> (r: Self)
        ensures
            r.index == 0,
            r.entry_setting.filter == FilterType::Nearest,
            r.entry_setting.max_resize == (300u32, 300u32),
            r.entry_setting.texture_option == (TextureOption {
                linear_magnification: false,
                linear_minification: false,
            }),
    {
        ExplorerLoaderSetting { index: 0, entry_setting: ExplorerEntryLoaderSetting::default() }
    }
}

impl ExplorerLoaderSetting {
    /// Order in which a collection of `size` entries is visited: the focus
    /// first, then alternating outward. A focus beyond the collection is
    /// clamped to its end.
    pub fn load_priorities(&self, size: usize) -> (r: Vec<usize>)
        ensures
            r@.len() == size,
            forall|k: int|
                0 <= k < size ==> r@[k] == interleave_elem(
                    0,
                    size as int,
                    if self.index <= size {
                        self.index as int
                    } else {
                        size as int
                    },
                    k,
                ),
            self.index < size ==> r@[0] == self.index,
    {
        let anchor: usize = if self.index <= size {
            self.index
        } else {
            size
        };
        split_and_interleave_at(0, size, anchor)
    }
}

/// The explorer grid's appearance setting.
#[derive(Clone, Copy, PartialEq, Eq, Debug, Structural)]
pub struct ExplorerSetting {
    pub minimum_column_width: u32,
}

impl Default for ExplorerSetting {
    /// Columns at least 400 wide.
    fn default() -> (r: Self)
        ensures
            r.minimum_column_width == 400,
    {
        ExplorerSetting { minimum_column_width: 400 }
    }
}

/// The index range the admission semaphore prefers, and the indices filtered out of it.
#[derive(Debug)]
pub struct PriorityRange {
    range: Range<usize>,
    filtered: Vec<usize>,
}

impl PriorityRange {
    /// Lower bound of the preferred range.
    pub closed spec fn start(&self) -> usize {
        self.range.start
    }

    /// Upper bound of the preferred range.
    pub closed spec fn end(&self) -> usize {
        self.range.end
    }

    /// The indices marked filtered.
    pub closed spec fn filtered_view(&self) -> Set<int> {
        self.filtered@.map_values(|i: usize| i as int).to_set()
    }

    /// A range over the given bounds with nothing filtered.
    pub fn new(range: Range<usize>) -> (r: Self)
        ensures
            r.start() == range.start,
            r.end() == range.end,
            r.filtered_view() == Set::<int>::empty(),
    {
        let r = PriorityRange { range, filtered: Vec::new() };
        proof {
            assert(r.filtered_view() =~= Set::<int>::empty());
        }
        r
    }

    /// Mark one index filtered.
    pub fn filter(&mut self, filter: usize)
        ensures
            final(self).start() == old(self).start(),
            final(self).end() == old(self).end(),
            final(self).filtered_view() == old(self).filtered_view().insert(filter as int),
    {
        self.filtered.push(filter);
        proof {
            let pre = old(self).filtered@.map_values(|i: usize| i as int);
            let post = self.filtered@.map_values(|i: usize| i as int);
            assert(post =~= pre.push(filter as int));
            assert forall|x: int| #[trigger] post.to_set().contains(x) implies pre.to_set().insert(
                filter as int,
            ).contains(x) by {
                let i = choose|i: int| 0 <= i < post.len() && post[i] == x;
                if i < pre.len() {
                    assert(pre[i] == x);
                }
            }
            assert forall|x: int| pre.to_set().insert(filter as int).contains(x) implies
                #[trigger] post.to_set().contains(x) by {
                if pre.to_set().contains(x) {
                    let i = choose|i: int| 0 <= i < pre.len() && pre[i] == x;
                    assert(post[i] == x);
                } else {
                    assert(post[pre.len() as int] == x);
                }
                assert(post.contains(x));
            }
            assert(self.filtered_view() =~= old(self).filtered_view().insert(filter as int));
        }
    }

    /// Visit order over this range anchored at `index`, the anchor clamped
    /// into the range.
    pub fn interleave_at(&self, index: usize) -> (r: Vec<usize>)
        requires
            self.start() <= self.end(),
        ensures
            r@.len() == self.end() - self.start(),
            forall|k: int|
                0 <= k < r@.len() ==> r@[k] == interleave_elem(
                    self.start() as int,
                    self.end() as int,
                    clamp_anchor(self.start() as int, self.end() as int, index as int),
                    k,
                ),
    {
        let anchor: usize = if index < self.range.start {
            self.range.start
        } else if index > self.range.end {
            self.range.end
        } else {
            index
        };
        split_and_interleave_at(self.range.start, self.range.end, anchor)
    }
}

/// The anchor the admission semaphore uses: the focus clamped into the range.
pub open spec fn clamp_anchor(start: int, end: int, index: int) -> int {
    if index < start {
        start
    } else if index > end {
        end
    } else {
        index
    }
}

/// The bounded-concurrency admission semaphore. Waiters register by entry
/// index; a freed slot goes to the registered waiter most preferred under
/// the visit order anchored at the current focus.
#[derive(Debug)]
pub struct PrioritySemaphore {
    permits: usize,
    capacity: usize,
    interleave_index: usize,
    priority: PriorityRange,
    wait_list: Vec<usize>,
}

/// Preference of index `w` under the semaphore's current order: its position in
/// the visit order anchored at the clamped focus; smaller is served first.
pub open spec fn admission_pos(start: int, end: int, focus: int, w: int) -> int {
    interleave_pos(start, end, clamp_anchor(start, end, focus), w)
}

impl PrioritySemaphore {
    /// Free slots the admission semaphore still holds.
    pub closed spec fn permits(&self) -> usize {
        self.permits
    }

    /// Slots the admission semaphore was created with.
    pub closed spec fn capacity(&self) -> usize {
        self.capacity
    }

    /// The current focus.
    pub closed spec fn focus(&self) -> usize {
        self.interleave_index
    }

    /// Lower bound of the preferred range.
    pub closed spec fn start(&self) -> usize {
        self.priority.start()
    }

    /// Upper bound of the preferred range.
    pub closed spec fn end(&self) -> usize {
        self.priority.end()
    }

    /// The registered waiters, in registration order.
    pub closed spec fn waiters(&self) -> Seq<usize> {
        self.wait_list@
    }

    /// The semaphore's range is ordered and its slots fit its capacity.
    pub closed spec fn wf(&self) -> bool {
        self.permits <= self.capacity && self.priority.start() <= self.priority.end()
    }

    /// A semaphore of `permits` slots anchored at `index`, preferring `priority`,
    /// with nobody waiting.
    pub fn new(permits: usize, index: usize, priority: PriorityRange) -> (r: Self)
        requires
            priority.start() <= priority.end(),
        ensures
            r.wf(),
            r.permits() == permits,
            r.capacity() == permits,
            r.focus() == index,
            r.start() == priority.start(),
            r.end() == priority.end(),
            r.waiters() == Seq::<usize>::empty(),
    {
        let r = PrioritySemaphore {
            permits,
            capacity: permits,
            interleave_index: index,
            priority,
            wait_list: Vec::new(),
        };
        proof {
            assert(r.wait_list@ =~= Seq::<usize>::empty());
        }
        r
    }

    /// Move the focus; nobody wakes until the next slot is redistributed.
    pub fn set_focus(&mut self, index: usize)
        ensures
            final(self).focus() == index,
            final(self).permits() == old(self).permits(),
            final(self).capacity() == old(self).capacity(),
            final(self).start() == old(self).start(),
            final(self).end() == old(self).end(),
            final(self).waiters() == old(self).waiters(),
            old(self).wf() ==> final(self).wf(),
    {
        self.interleave_index = index;
    }

    /// Register a waiter for an entry index.
    pub fn register(&mut self, index: usize)
        ensures
            final(self).waiters() == old(self).waiters().push(index),
            final(self).permits() == old(self).permits(),
            final(self).capacity() == old(self).capacity(),
            final(self).focus() == old(self).focus(),
            final(self).start() == old(self).start(),
            final(self).end() == old(self).end(),
            old(self).wf() ==> final(self).wf(),
    {
        self.wait_list.push(index);
    }

    /// Return a slot to the admission semaphore.
    pub fn release(&mut self)
        requires
            old(self).permits() < old(self).capacity(),
        ensures
            final(self).permits() == old(self).permits() + 1,
            final(self).capacity() == old(self).capacity(),
            final(self).focus() == old(self).focus(),
            final(self).start() == old(self).start(),
            final(self).end() == old(self).end(),
            final(self).waiters() == old(self).waiters(),
            old(self).wf() ==> final(self).wf(),
    {
        self.permits = self.permits + 1;
    }

    /// Hand a free slot to the waiter most preferred under the visit order
    /// anchored at the current focus: among the registered waiters inside
    /// the semaphore's range, the granted one has the least position, and its
    /// first registration leaves the table. Without a free slot, or without
    /// a waiter inside the range, nothing changes.
    pub fn try_redistribute(&mut self) -> (r: Option<usize>)
        requires
            old(self).wf(),
        ensures
            final(self).wf(),
            final(self).capacity() == old(self).capacity(),
            final(self).focus() == old(self).focus(),
            final(self).start() == old(self).start(),
            final(self).end() == old(self).end(),
            r matches Some(w) ==> {
                &&& old(self).permits() > 0
                &&& final(self).permits() == old(self).permits() - 1
                &&& old(self).waiters().contains(w)
                &&& old(self).start() <= w < old(self).end()
                &&& forall|j: int|
                    0 <= j < old(self).waiters().len() && old(self).start() <= old(self).waiters()[j]
                        < old(self).end() ==> admission_pos(
                        old(self).start() as int,
                        old(self).end() as int,
                        old(self).focus() as int,
                        w as int,
                    ) <= admission_pos(
                        old(self).start() as int,
                        old(self).end() as int,
                        old(self).focus() as int,
                        #[trigger] old(self).waiters()[j] as int,
                    )
                &&& exists|j: int|
                    {
                        &&& 0 <= j < old(self).waiters().len()
                        &&& old(self).waiters()[j] == w
                        &&& final(self).waiters() == old(self).waiters().remove(j)
                    }
            },
            r is None ==> {
                &&& final(self).permits() == old(self).permits()
                &&& final(self).waiters() == old(self).waiters()
                &&& (old(self).permits() == 0 || forall|j: int|
                    0 <= j < old(self).waiters().len() ==> !(old(self).start() <= #[trigger] old(
                        self,
                    ).waiters()[j] < old(self).end()))
            },
    {
        if self.permits == 0 {
            return None;
        }
        let order = self.priority.interleave_at(self.interleave_index);
        let ghost s = self.start() as int;
        let ghost e = self.end() as int;
        let ghost anchor = clamp_anchor(s, e, self.focus() as int);
        proof {
            lemma_interleave_permutation(s, e, anchor);
        }
        let mut k: usize = 0;
        let n: usize = order.len();
        while k < n
            invariant
                self == old(self),
                self.wf(),
                self.permits() > 0,
                n == order@.len() == e - s,
                s == self.start() as int,
                e == self.end() as int,
                anchor == clamp_anchor(s, e, self.focus() as int),
                k <= n,
                forall|t: int| 0 <= t < n ==> order@[t] == interleave_elem(s, e, anchor, t),
                forall|t: int|
                    0 <= t < n ==> s <= #[trigger] order@[t] < e && interleave_pos(
                        s,
                        e,
                        anchor,
                        order@[t] as int,
                    ) == t,
                forall|j: int|
                    0 <= j < self.waiters().len() && s <= self.waiters()[j] < e ==> admission_pos(
                        s,
                        e,
                        self.focus() as int,
                        #[trigger] self.waiters()[j] as int,
                    ) >= k,
            decreases n - k,
        {
            let candidate: usize = order[k];
            proof {
                assert(order@[k as int] == candidate);
                assert(interleave_pos(s, e, anchor, candidate as int) == k);
            }
            let mut j: usize = 0;
            let m: usize = self.wait_list.len();
            while j < m
                invariant
                    self == old(self),
                    self.wf(),
                    self.permits() > 0,
                    s == self.start() as int,
                    e == self.end() as int,
                    anchor == clamp_anchor(s, e, self.focus() as int),
                    s <= candidate < e,
                    interleave_pos(s, e, anchor, candidate as int) == k,
                    m == self.waiters().len(),
                    j <= m,
                    forall|t: int| 0 <= t < j ==> self.waiters()[t] != candidate,
                    forall|t: int|
                        0 <= t < self.waiters().len() && s <= self.waiters()[t] < e ==> admission_pos(
                            s,
                            e,
                            self.focus() as int,
                            #[trigger] self.waiters()[t] as int,
                        ) >= k,
                decreases m - j,
            {
                if self.wait_list[j] == candidate {
                    proof {
                        assert(self.waiters()[j as int] == candidate);
                        assert(self.waiters().contains(candidate));
                        assert(admission_pos(s, e, self.focus() as int, candidate as int) == k);
                    }
                    self.wait_list.remove(j);
                    self.permits = self.permits - 1;
                    return Some(candidate);
                }
                j = j + 1;
            }
            proof {
                assert forall|t: int|
                    0 <= t < self.waiters().len() && s <= self.waiters()[t] < e implies admission_pos(
                        s,
                        e,
                        self.focus() as int,
                        #[trigger] self.waiters()[t] as int,
                    ) >= k + 1 by {
                    let w = self.waiters()[t] as int;
                    if admission_pos(s, e, self.focus() as int, w) == k {
                        assert(interleave_elem(s, e, anchor, k as int) == w);
                        assert(order@[k as int] == w);
                        assert(self.waiters()[t] != candidate);
                    }
                }
            }
            k = k + 1;
        }
        proof {
            assert forall|j: int|
                0 <= j < self.waiters().len() && s <= #[trigger] self.waiters()[j] < e implies
                false by {
                assert(admission_pos(s, e, self.focus() as int, self.waiters()[j] as int) >= n);
                assert(interleave_pos(s, e, anchor, self.waiters()[j] as int) < e - s);
            }
        }
        None
    }
}


} // verus!
