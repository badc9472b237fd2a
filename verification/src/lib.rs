//! Core of a priority-windowed concurrent asset loader for an image viewer.
//!
//! Given an ordered collection of entries (files in a folder, or pages in an
//! archive), the library decides which entries to decode, in what order
//! competing requests are serviced as the focus moves, how decoded artifacts
//! are cached by content identity, and how stale in-flight work is cancelled
//! when it falls outside the region of interest.

use vstd::prelude::*;

pub mod cache;
pub mod frame;
pub mod key;
pub mod loader;
pub mod path;
pub mod pipeline;
pub mod reader;
pub mod scheduler;
pub mod texture;
pub mod tools;

verus! {

/// Checked addition of a signed step to an unsigned index.
pub trait UnsignedExt: Sized {
    /// `Some(self + rhs)` when the sum stays within `usize`, else `None`.
    fn checked_add_signed_ext(self, rhs: isize) -> Option<usize>;
}

impl UnsignedExt for usize {
    fn checked_add_signed_ext(self, rhs: isize) -> (r: Option<usize>)
        ensures
            r matches Some(v) ==> v == self + rhs,
            r is None ==> self + rhs < 0 || self + rhs > usize::MAX,
    {
        if rhs < 0 {
            if rhs == isize::MIN {
                if self >= 1 && self - 1 >= isize::MAX as usize {
                    Some(((self - 1) - (isize::MAX as usize)))
                } else {
                    None
                }
            } else {
                let a: usize = (-rhs) as usize;
                self.checked_sub(a)
            }
        } else {
            self.checked_add(rhs as usize)
        }
    }
}

/// Relies on std::time::SystemTime::now and duration_since: milliseconds of
/// the present moment since the epoch. Nothing is promised of a clock
/// reading; a moment before the epoch reads as zero.
#[verifier::external_body]
pub fn now_millis() -> u64 {
    match std::time::SystemTime::now().duration_since(std::time::SystemTime::UNIX_EPOCH) {
        Ok(d) => {
            let ms = d.as_millis();
            if ms > u64::MAX as u128 {
                u64::MAX
            } else {
                ms as u64
            }
        },
        Err(_) => 0,
    }
}

/// Where the reader stands in one collection: the page shown, the page
/// count, when it was last updated, and whether reading finished.
#[derive(Debug, Clone, Copy, PartialEq, Eq, Structural)]
pub struct ReadingProgressValue {
    pub page: usize,
    pub total_page: usize,
    pub time_ms: u64,
    pub is_finished: bool,
}

impl Default for ReadingProgressValue {
    /// The first page of an empty collection, unfinished, stamped now.
    fn default() -> (r: Self)
        ensures
            r.page == 0,
            r.total_page == 0,
            !r.is_finished,
    {
        ReadingProgressValue { page: 0, total_page: 0, time_ms: now_millis(), is_finished: false }
    }
}

impl ReadingProgressValue {
    /// Progress at the given page of the given count, unfinished, stamped
    /// now.
    pub fn new(page: usize, total_page: usize) -> (r: Self)
        ensures
            r.page == page,
            r.total_page == total_page,
            !r.is_finished,
    {
        ReadingProgressValue { page, total_page, time_ms: now_millis(), is_finished: false }
    }
}

/// Reading progress per collection path.
#[derive(Debug, Clone)]
pub struct ReadingProgress {
    progress: Vec<(String, ReadingProgressValue)>,
}

/// What a progress table holds for one path: the value of its last entry
/// with that key.
pub open spec fn progress_get(
    v: Seq<(String, ReadingProgressValue)>,
    path: Seq<char>,
) -> Option<ReadingProgressValue>
    decreases v.len(),
{
    if v.len() == 0 {
        Option::None
    } else if v.last().0@ == path {
        Option::Some(v.last().1)
    } else {
        progress_get(v.drop_last(), path)
    }
}

/// The value `insert` leaves for a path: the new value, except that the page
/// never moves backwards and a finished collection stays finished.
pub open spec fn spec_progress_merge(
    prior: Option<ReadingProgressValue>,
    value: ReadingProgressValue,
) -> ReadingProgressValue {
    match prior {
        Option::None => value,
        Option::Some(p) => ReadingProgressValue {
            page: if value.page < p.page {
                p.page
            } else {
                value.page
            },
            is_finished: p.is_finished || value.is_finished,
            ..value
        },
    }
}

impl ReadingProgress {
    /// What the table holds for one path.
    pub closed spec fn spec_get(&self, path: Seq<char>) -> Option<ReadingProgressValue> {
        progress_get(self.progress@, path)
    }

    /// An empty table.
    pub fn new() -> (r: Self)
        ensures
            forall|p: Seq<char>| #[trigger] r.spec_get(p) is None,
    {
        ReadingProgress { progress: Vec::new() }
    }

    /// Record progress for a path, merging with what stands: the page never
    /// moves backwards, and a finished collection stays finished.
    pub fn insert(&mut self, path: &str, value: ReadingProgressValue)
        ensures
            final(self).spec_get(path@) == Option::Some(
                spec_progress_merge(old(self).spec_get(path@), value),
            ),
            forall|p: Seq<char>|
                p != path@ ==> #[trigger] final(self).spec_get(p) == old(self).spec_get(p),
    {
        let prior = self.get(path);
        let merged = match prior {
            None => value,
            Some(p) => {
                let page: usize = if value.page < p.page {
                    p.page
                } else {
                    value.page
                };
                ReadingProgressValue {
                    page,
                    is_finished: p.is_finished || value.is_finished,
                    ..value
                }
            },
        };
        let ghost pre = self.progress@;
        self.progress.push((path.to_owned(), merged));
        proof {
            assert(self.progress@.drop_last() =~= pre);
        }
    }

    /// Mark a path finished: its page moves to the page count; a path the
    /// table does not hold is left alone.
    pub fn insert_finish(&mut self, path: &str)
        ensures
            old(self).spec_get(path@) matches Some(p) ==> final(self).spec_get(path@)
                == Option::Some(
                ReadingProgressValue { page: p.total_page, is_finished: true, ..p },
            ),
            old(self).spec_get(path@) is None ==> final(self).spec_get(path@) is None,
            forall|p: Seq<char>|
                p != path@ ==> #[trigger] final(self).spec_get(p) == old(self).spec_get(p),
    {
        let prior = self.get(path);
        if let Some(p) = prior {
            let finished = ReadingProgressValue { page: p.total_page, is_finished: true, ..p };
            let ghost pre = self.progress@;
            self.progress.push((path.to_owned(), finished));
            proof {
                assert(self.progress@.drop_last() =~= pre);
            }
        }
    }

    /// What the table holds for one path.
    pub fn get(&self, path: &str) -> (r: Option<ReadingProgressValue>)
        ensures
            r == self.spec_get(path@),
    {
        let key: String = path.to_owned();
        let n: usize = self.progress.len();
        let mut i: usize = n;
        proof {
            assert(self.progress@.take(n as int) =~= self.progress@);
        }
        while i > 0
            invariant
                i <= n == self.progress@.len(),
                key@ == path@,
                self.spec_get(path@) == progress_get(self.progress@.take(i as int), path@),
            decreases i,
        {
            proof {
                assert(self.progress@.take(i as int).drop_last() =~= self.progress@.take(
                    i - 1 as int,
                ));
                assert(self.progress@.take(i as int).last() == self.progress@[i - 1 as int]);
            }
            if self.progress[i - 1].0 == key {
                return Some(self.progress[i - 1].1);
            }
            i = i - 1;
        }
        proof {
            assert(self.progress@.take(0int) =~= Seq::<(String, ReadingProgressValue)>::empty());
        }
        None
    }
}

/// Number of elements the interleaved visit order holds: one for each
/// position of `[start, end)`.
pub open spec fn interleave_len(start: int, end: int) -> int {
    end - start
}

/// Element `k` of the visit order for `[start, end)` anchored at `index`:
/// the anchor first, then alternating outward beginning with the forward
/// neighbour (`index + 1`, `index - 1`, `index + 2`, ...), each side
/// continuing alone once the other is exhausted; an anchor at `end` leaves
/// only the backward run.
pub open spec fn interleave_elem(start: int, end: int, index: int, k: int) -> int {
    let fwd = end - index;
    let back = index - start;
    let both = if fwd - 1 <= back {
        fwd - 1
    } else {
        back
    };
    if fwd == 0 {
        index - 1 - k
    } else if k == 0 {
        index
    } else if k <= 2 * both {
        if k % 2 == 1 {
            index + (k + 1) / 2
        } else {
            index - k / 2
        }
    } else if fwd - 1 > back {
        index + (k - back)
    } else {
        index - (k - (fwd - 1))
    }
}

/// Position of value `v` inside the visit order for `[start, end)` anchored
/// at `index`: the inverse of `interleave_elem`.
pub open spec fn interleave_pos(start: int, end: int, index: int, v: int) -> int {
    let fwd = end - index;
    let back = index - start;
    let both = if fwd - 1 <= back {
        fwd - 1
    } else {
        back
    };
    if fwd == 0 {
        index - 1 - v
    } else if v == index {
        0
    } else if v > index {
        let t = v - index;
        if t <= both {
            2 * t - 1
        } else {
            t + back
        }
    } else {
        let d = index - v;
        if d <= both {
            2 * d
        } else {
            d + (fwd - 1)
        }
    }
}

/// Every element of the visit order lies in `[start, end)`, and `pos` is a
/// two-sided inverse of `elem`; hence the order is a permutation of the range.
pub proof fn lemma_interleave_permutation(start: int, end: int, index: int)
    requires
        start <= index <= end,
    ensures
        forall|k: int|
            0 <= k < interleave_len(start, end) ==> start <= #[trigger] interleave_elem(
                start,
                end,
                index,
                k,
            ) < end,
        forall|k: int|
            0 <= k < interleave_len(start, end) ==> interleave_pos(
                start,
                end,
                index,
                #[trigger] interleave_elem(start, end, index, k),
            ) == k,
        forall|v: int|
            start <= v < end ==> 0 <= #[trigger] interleave_pos(start, end, index, v)
                < interleave_len(start, end),
        forall|v: int|
            start <= v < end ==> interleave_elem(
                start,
                end,
                index,
                #[trigger] interleave_pos(start, end, index, v),
            ) == v,
{
}

/// Distinct positions of the visit order hold distinct values.
pub proof fn lemma_interleave_injective(start: int, end: int, index: int, k1: int, k2: int)
    requires
        start <= index <= end,
        0 <= k1 < interleave_len(start, end),
        0 <= k2 < interleave_len(start, end),
        interleave_elem(start, end, index, k1) == interleave_elem(start, end, index, k2),
    ensures
        k1 == k2,
{
    lemma_interleave_permutation(start, end, index);
}

/// The law of the visit order: for every collection and focus inside it,
/// the order is a permutation of the collection's indices that starts at the
/// focus — every position holds an index of the collection, no index
/// repeats, and every index appears.
pub proof fn lemma_visit_order_permutation(total: int, focus: int)
    requires
        0 <= focus < total,
    ensures
        interleave_elem(0, total, focus, 0) == focus,
        forall|k: int|
            0 <= k < total ==> 0 <= #[trigger] interleave_elem(0, total, focus, k) < total,
        forall|k1: int, k2: int|
            0 <= k1 < k2 < total ==> interleave_elem(0, total, focus, k1) != interleave_elem(
                0,
                total,
                focus,
                k2,
            ),
        forall|v: int|
            0 <= v < total ==> 0 <= #[trigger] interleave_pos(0, total, focus, v) < total
                && interleave_elem(0, total, focus, interleave_pos(0, total, focus, v)) == v,
{
    lemma_interleave_permutation(0, total, focus);
    assert forall|k1: int, k2: int|
        0 <= k1 < k2 < total implies interleave_elem(0, total, focus, k1) != interleave_elem(
        0,
        total,
        focus,
        k2,
    ) by {
        if interleave_elem(0, total, focus, k1) == interleave_elem(0, total, focus, k2) {
            lemma_interleave_injective(0, total, focus, k1, k2);
        }
    }
}

/// Visit order over `[start, end)` anchored at `index`: `index` first, then
/// alternating outward (`index + 1`, `index - 1`, `index + 2`, ...), each
/// side continuing alone once the other is exhausted.
pub fn split_and_interleave_at(start: usize, end: usize, index: usize) -> (r: Vec<usize>)
    requires
        start <= index <= end,
    ensures
        r@.len() == interleave_len(start as int, end as int),
        forall|k: int|
            0 <= k < r@.len() ==> r@[k] == interleave_elem(start as int, end as int, index as int, k),
        index < end ==> r@.len() > 0 && r@[0] == index,
{
    let len: usize = end - start;
    let mut r: Vec<usize> = Vec::new();
    let fwd: usize = end - index;
    let back: usize = index - start;
    let both: usize = if fwd >= 1 && fwd - 1 <= back {
        fwd - 1
    } else {
        back
    };
    let mut k: usize = 0;
    while k < len
        invariant
            start <= index <= end,
            len == end - start,
            fwd == end - index,
            back == index - start,
            fwd >= 1 ==> both == if fwd - 1 <= back {
                fwd - 1
            } else {
                back as int
            },
            k <= len,
            r@.len() == k,
            forall|j: int|
                0 <= j < k ==> r@[j] == interleave_elem(start as int, end as int, index as int, j),
        decreases len - k,
    {
        let v: usize = if fwd == 0 {
            index - 1 - k
        } else if k == 0 {
            index
        } else if k <= 2 * both {
            if k % 2 == 1 {
                index + (k + 1) / 2
            } else {
                index - k / 2
            }
        } else if fwd - 1 > back {
            index + (k - back)
        } else {
            index - (k - (fwd - 1))
        };
        r.push(v);
        k = k + 1;
    }
    r
}


/// What the application persists across runs: the reading progress table.
#[derive(Debug, Clone)]
pub struct AppData {
    pub reading_progress: ReadingProgress,
}

impl Default for AppData {
    /// No progress recorded yet.
    fn default() -> (r: Self)
        ensures
            forall|p: Seq<char>| #[trigger] r.reading_progress.spec_get(p) is None,
    {
        AppData { reading_progress: ReadingProgress::new() }
    }
}

/// How opening the parent folder resolves the path it steps up from.
#[derive(Clone, Copy, PartialEq, Eq, Debug, Structural)]
pub struct AppOpenParentSetting {
    pub canonicalize_path: bool,
}

} // verus!
