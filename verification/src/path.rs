//! Path model and ordering.
//!
//! Paths are carried as the bytes of their canonical string form, the form
//! the cache hashes and the sorter compares. Parents and extensions are read
//! from those bytes directly; natural-order comparison of names is handed
//! to an outside collaborator whose result is only required to be a function
//! of the two names.

use vstd::prelude::*;

use core::cmp::Ordering;

verus! {

/// Byte value of `/`, the path separator.
pub open spec fn sep() -> u8 {
    47u8
}

/// Byte value of `.`, the extension marker.
pub open spec fn dot() -> u8 {
    46u8
}

/// Index of the last separator of `s`, or `-1` when `s` holds none.
pub open spec fn last_sep(s: Seq<u8>) -> int
    decreases s.len(),
{
    if s.len() == 0 {
        -1
    } else if s[s.len() - 1] == sep() {
        s.len() - 1
    } else {
        last_sep(s.drop_last())
    }
}

pub proof fn lemma_last_sep_bounds(s: Seq<u8>)
    ensures
        -1 <= last_sep(s) < s.len(),
        last_sep(s) >= 0 ==> s[last_sep(s)] == sep(),
        forall|j: int| last_sep(s) < j < s.len() ==> s[j] != sep(),
    decreases s.len(),
{
    if s.len() > 0 && s[s.len() - 1] != sep() {
        lemma_last_sep_bounds(s.drop_last());
        assert(forall|j: int| 0 <= j < s.len() - 1 ==> s[j] == s.drop_last()[j]);
    }
}

/// The parent of a canonical path: the bytes before its last separator,
/// `/` itself when that separator leads the path, and nothing for a path
/// without separators or for the root.
pub open spec fn spec_parent(s: Seq<u8>) -> Option<Seq<u8>> {
    let i = last_sep(s);
    if i < 0 {
        Option::None
    } else if i == 0 {
        if s.len() == 1 {
            Option::None
        } else {
            Option::Some(seq![sep()])
        }
    } else {
        Option::Some(s.take(i))
    }
}

/// A parent is always strictly shorter than its child.
pub proof fn lemma_parent_shorter(s: Seq<u8>)
    ensures
        spec_parent(s) matches Option::Some(p) ==> p.len() < s.len(),
{
    lemma_last_sep_bounds(s);
}

/// Whether the last component of `s` carries an extension: a `.` strictly
/// after the component's first byte.
pub open spec fn spec_has_extension(s: Seq<u8>) -> bool {
    exists|j: int| last_sep(s) + 1 < j < s.len() && s[j] == dot()
}

/// Position of the last separator of `path`, or `None` when it has none.
fn find_last_sep(path: &[u8]) -> (r: Option<usize>)
    ensures
        r matches Some(i) ==> i == last_sep(path@),
        r is None ==> last_sep(path@) == -1,
{
    let mut i: usize = path.len();
    proof {
        assert(path@.take(path@.len() as int) =~= path@);
    }
    while i > 0
        invariant
            i <= path@.len(),
            last_sep(path@) == last_sep(path@.take(i as int)),
        decreases i,
    {
        if path[i - 1] == 47u8 {
            proof {
                assert(path@.take(i as int)[i - 1] == sep());
                assert(last_sep(path@.take(i as int)) == i - 1);
            }
            return Some(i - 1);
        }
        proof {
            assert(path@.take(i as int).drop_last() =~= path@.take(i - 1));
        }
        i = i - 1;
    }
    proof {
        assert(path@.take(0int) =~= Seq::<u8>::empty());
    }
    None
}

/// The parent of a canonical path, as `spec_parent` states it.
pub fn parent_of(path: &[u8]) -> (r: Option<Vec<u8>>)
    ensures
        r matches Some(p) ==> spec_parent(path@) == Option::Some(p@),
        r is None ==> spec_parent(path@) is None,
{
    proof {
        lemma_last_sep_bounds(path@);
    }
    match find_last_sep(path) {
        None => None,
        Some(i) => {
            if i == 0 {
                if path.len() == 1 {
                    None
                } else {
                    let mut v: Vec<u8> = Vec::new();
                    v.push(47u8);
                    proof {
                        assert(v@ =~= seq![sep()]);
                    }
                    Some(v)
                }
            } else {
                let mut v: Vec<u8> = Vec::new();
                let mut j: usize = 0;
                while j < i
                    invariant
                        j <= i < path@.len(),
                        v@ =~= path@.take(j as int),
                    decreases i - j,
                {
                    v.push(path[j]);
                    j = j + 1;
                }
                Some(v)
            }
        },
    }
}

/// Whether the last component of `path` carries an extension.
pub fn has_extension(path: &[u8]) -> (r: bool)
    ensures
        r == spec_has_extension(path@),
{
    proof {
        lemma_last_sep_bounds(path@);
    }
    let n: usize = path.len();
    let start: usize = match find_last_sep(path) {
        Some(i) => {
            proof {
                assert(i < n);
            }
            i + 1
        },
        None => 0,
    };
    if start >= path.len() {
        return false;
    }
    let mut j: usize = start + 1;
    let mut found: bool = false;
    while j < path.len()
        invariant
            start == last_sep(path@) + 1,
            start < path@.len(),
            start + 1 <= j <= path@.len(),
            found ==> exists|t: int| last_sep(path@) + 1 < t < path@.len() && path@[t] == dot(),
            !found ==> forall|t: int| last_sep(path@) + 1 < t < j ==> path@[t] != dot(),
        decreases path@.len() - j,
    {
        if path[j] == 46u8 {
            found = true;
            proof {
                assert(path@[j as int] == dot());
            }
        }
        j = j + 1;
    }
    found
}

/// Lexicographic order over byte strings.
pub open spec fn spec_cmp_bytes(a: Seq<u8>, b: Seq<u8>) -> Ordering
    decreases a.len(),
{
    if a.len() == 0 && b.len() == 0 {
        Ordering::Equal
    } else if a.len() == 0 {
        Ordering::Less
    } else if b.len() == 0 {
        Ordering::Greater
    } else if a[0] < b[0] {
        Ordering::Less
    } else if a[0] > b[0] {
        Ordering::Greater
    } else {
        spec_cmp_bytes(a.drop_first(), b.drop_first())
    }
}

proof fn lemma_cmp_skip(a: Seq<u8>, b: Seq<u8>, i: int)
    requires
        0 <= i <= a.len(),
        i <= b.len(),
        forall|j: int| 0 <= j < i ==> a[j] == b[j],
    ensures
        spec_cmp_bytes(a, b) == spec_cmp_bytes(a.skip(i), b.skip(i)),
    decreases i,
{
    if i == 0 {
        assert(a.skip(0int) =~= a);
        assert(b.skip(0int) =~= b);
    } else {
        assert(a.drop_first() =~= a.skip(1int));
        assert(b.drop_first() =~= b.skip(1int));
        assert(spec_cmp_bytes(a, b) == spec_cmp_bytes(a.skip(1int), b.skip(1int)));
        lemma_cmp_skip(a.skip(1int), b.skip(1int), i - 1);
        assert(a.skip(1int).skip(i - 1) =~= a.skip(i));
        assert(b.skip(1int).skip(i - 1) =~= b.skip(i));
    }
}

/// Compare two byte strings lexicographically, as their canonical path
/// strings would compare.
pub fn cmp_bytes(a: &[u8], b: &[u8]) -> (r: Ordering)
    ensures
        r == spec_cmp_bytes(a@, b@),
        r is Equal <==> a@ == b@,
{
    let mut i: usize = 0;
    loop
        invariant
            i <= a@.len(),
            i <= b@.len(),
            forall|j: int| 0 <= j < i ==> a@[j] == b@[j],
        ensures
            spec_cmp_bytes(a@, b@) == spec_cmp_bytes(a@.skip(i as int), b@.skip(i as int)),
            (i == a@.len() && i == b@.len()) || (i < a@.len() && i == b@.len()) || (i == a@.len()
                && i < b@.len()) || (i < a@.len() && i < b@.len() && a@[i as int] != b@[i as int]),
        decreases a@.len() - i,
    {
        proof {
            lemma_cmp_skip(a@, b@, i as int);
        }
        if i >= a.len() || i >= b.len() {
            break ;
        }
        if a[i] != b[i] {
            break ;
        }
        i = i + 1;
    }
    proof {
        lemma_cmp_skip(a@, b@, i as int);
        if a@.len() == b@.len() && i == a@.len() {
            assert(a@ =~= b@);
        }
        if a@ == b@ {
            assert(a@.len() == b@.len());
        }
    }
    if i >= a.len() && i >= b.len() {
        Ordering::Equal
    } else if i >= a.len() {
        proof {
            assert(a@.skip(i as int).len() == 0);
            assert(b@.skip(i as int).len() > 0);
        }
        Ordering::Less
    } else if i >= b.len() {
        Ordering::Greater
    } else if a[i] < b[i] {
        proof {
            assert(a@.skip(i as int)[0] == a@[i as int]);
            assert(b@.skip(i as int)[0] == b@[i as int]);
        }
        Ordering::Less
    } else {
        proof {
            assert(a@.skip(i as int)[0] == a@[i as int]);
            assert(b@.skip(i as int)[0] == b@[i as int]);
        }
        Ordering::Greater
    }
}

/// What the natural-order collaborator answers for two names: a fixed
/// function of the two byte strings alone.
pub uninterp spec fn nat_cmp(a: Seq<u8>, b: Seq<u8>) -> Ordering;

/// Relies on natord::compare for names that are valid text, and on the
/// documented lexicographic order of byte slices otherwise; either way the
/// answer depends on the two names alone, and a name compares equal to
/// itself.
#[verifier::external_body]
pub fn compare_natural(a: &[u8], b: &[u8]) -> (r: Ordering)
    ensures
        r == nat_cmp(a@, b@),
        a@ == b@ ==> r == Ordering::Equal,
{
    match (core::str::from_utf8(a), core::str::from_utf8(b)) {
        (Ok(sa), Ok(sb)) => natord::compare(sa, sb),
        _ => a.cmp(b),
    }
}

/// Compare two already-fetched modification times; unreadable metadata on
/// either side makes the pair incomparable, hence equal.
pub fn compare_last_modified(a: Option<u64>, b: Option<u64>) -> (r: Ordering)
    ensures
        r == spec_compare_last_modified(a, b),
{
    match (a, b) {
        (Some(ta), Some(tb)) => {
            if ta < tb {
                Ordering::Less
            } else if ta > tb {
                Ordering::Greater
            } else {
                Ordering::Equal
            }
        },
        _ => Ordering::Equal,
    }
}

/// Order of two modification times; missing metadata compares equal.
pub open spec fn spec_compare_last_modified(a: Option<u64>, b: Option<u64>) -> Ordering {
    match (a, b) {
        (Option::Some(ta), Option::Some(tb)) => if ta < tb {
            Ordering::Less
        } else if ta > tb {
            Ordering::Greater
        } else {
            Ordering::Equal
        },
        _ => Ordering::Equal,
    }
}

/// What one directory entry shows to the sorter: its canonical path bytes,
/// its file name bytes, and its modification time when readable.
pub struct PathMeta {
    pub path: Vec<u8>,
    pub file_name: Vec<u8>,
    pub modified: Option<u64>,
}

/// Which orders the path sorter applies, and in which direction.
pub struct PathSorterInner {
    pub natural: bool,
    pub last_modified: bool,
    pub ascending: bool,
}

impl Default for PathSorterInner {
    /// Natural name order, ascending, ignoring modification times.
    fn default() -> (r: Self)
        ensures
            r.natural,
            !r.last_modified,
            r.ascending,
    {
        PathSorterInner { natural: true, last_modified: false, ascending: true }
    }
}

/// The order `compare_path` applies to two entries once direction is fixed:
/// modification time first when enabled, then natural name order when
/// enabled, then the full canonical path.
pub open spec fn spec_compare_path(
    s: PathSorterInner,
    a: PathMeta,
    b: PathMeta,
) -> Ordering {
    let by_time = spec_compare_last_modified(a.modified, b.modified);
    if s.last_modified && !(by_time is Equal) {
        by_time
    } else {
        let by_name = nat_cmp(a.file_name@, b.file_name@);
        if s.natural && !(by_name is Equal) {
            by_name
        } else {
            spec_cmp_bytes(a.path@, b.path@)
        }
    }
}

impl PathSorterInner {
    /// Compare two entries under this setting; a descending setting swaps
    /// the sides before comparing.
    pub fn compare_path(&self, a: &PathMeta, b: &PathMeta) -> (r: Ordering)
        ensures
            self.ascending ==> r == spec_compare_path(*self, *a, *b),
            !self.ascending ==> r == spec_compare_path(*self, *b, *a),
    {
        let (x, y): (&PathMeta, &PathMeta) = if self.ascending {
            (a, b)
        } else {
            (b, a)
        };
        if self.last_modified {
            let ord = compare_last_modified(x.modified, y.modified);
            if !matches!(ord, Ordering::Equal) {
                return ord;
            }
        }
        if self.natural {
            let ord = compare_natural(x.file_name.as_slice(), y.file_name.as_slice());
            if !matches!(ord, Ordering::Equal) {
                return ord;
            }
        }
        cmp_bytes(x.path.as_slice(), y.path.as_slice())
    }
}


/// The entry `get_folder_by` steps from: the last listing position whose
/// path is the given one, or the first position when the path is not listed.
pub open spec fn spec_folder_base(entries: Seq<Vec<u8>>, path: Seq<u8>) -> int {
    if exists|j: int| 0 <= j < entries.len() && entries[j]@ == path {
        choose|j: int|
            0 <= j < entries.len() && entries[j]@ == path && forall|t: int|
                j < t < entries.len() ==> entries[t]@ != path
    } else {
        0
    }
}

/// Step from the listing position of `path` by `direction` within a sorted
/// listing of sibling paths: the position found (the last match, or the
/// start when the path is not listed) moved by the step, or nothing when the
/// move leaves the listing.
pub fn get_folder_by(entries: &Vec<Vec<u8>>, path: &[u8], direction: isize) -> (r: Option<usize>)
    ensures
        ({
            let base = spec_folder_base(entries@, path@);
            &&& (r matches Some(i) ==> i == base + direction && i < entries@.len())
            &&& (r is None ==> base + direction < 0 || base + direction >= entries@.len()
                || base + direction > usize::MAX)
        }),
{
    let n: usize = entries.len();
    let mut index: usize = 0;
    let mut found: bool = false;
    let mut i: usize = 0;
    while i < n
        invariant
            n == entries@.len(),
            i <= n,
            !found ==> index == 0 && forall|j: int| 0 <= j < i ==> entries@[j]@ != path@,
            found ==> index < i && entries@[index as int]@ == path@ && forall|t: int|
                index < t < i ==> entries@[t]@ != path@,
        decreases n - i,
    {
        if crate::cache::eq_bytes(entries[i].as_slice(), path) {
            index = i;
            found = true;
        }
        i = i + 1;
    }
    proof {
        if found {
            assert(spec_folder_base(entries@, path@) == index as int) by {
                assert(entries@[index as int]@ == path@);
                let w = choose|j: int|
                    0 <= j < entries@.len() && entries@[j]@ == path@ && forall|t: int|
                        j < t < entries@.len() ==> entries@[t]@ != path@;
                assert(w == index as int);
            }
        } else {
            assert(forall|j: int| 0 <= j < entries@.len() ==> entries@[j]@ != path@);
        }
    }
    let next = crate::UnsignedExt::checked_add_signed_ext(index, direction)?;
    if next < n {
        Some(next)
    } else {
        None
    }
}

} // verus!
