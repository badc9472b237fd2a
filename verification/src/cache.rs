//! Content cache: a persistent mapping from a path's content identity to a
//! cached-artifact identity, with recursive propagation toward ancestors.
//!
//! A path's content id is the lower-case hex form of the SHA-256 digest of
//! its canonical string bytes. The cache keeps the direct map (content id to
//! artifact) and a reverse index (artifact to the paths recorded for it);
//! the reverse index is informational and is never consulted by lookups.

use vstd::prelude::*;

use crate::path::{lemma_parent_shorter, spec_has_extension, spec_parent, cmp_bytes, has_extension,
    parent_of};
use core::cmp::Ordering;

verus! {

/// What the SHA-256 collaborator answers for a byte string: a fixed function
/// of the bytes alone.
pub uninterp spec fn sha256_of(data: Seq<u8>) -> Seq<u8>;

/// Relies on sha2::Sha256::digest: a 32-byte digest that depends on the
/// input bytes alone.
#[verifier::external_body]
pub fn sha256_digest(data: &[u8]) -> (r: Vec<u8>)
    ensures
        r@ == sha256_of(data@),
        r@.len() == 32,
{
    <sha2::Sha256 as sha2::Digest>::digest(data).to_vec()
}

/// Lower-case hex digit for a value below 16.
pub open spec fn hex_digit(n: u8) -> u8 {
    if n < 10 {
        (48 + n) as u8
    } else {
        (87 + n) as u8
    }
}

/// Lower-case hex encoding of a byte string: two digits for each byte.
pub open spec fn spec_hex_lower(data: Seq<u8>) -> Seq<u8>
    decreases data.len(),
{
    if data.len() == 0 {
        Seq::empty()
    } else {
        spec_hex_lower(data.drop_last()) + seq![
            hex_digit(data.last() / 16),
            hex_digit(data.last() % 16),
        ]
    }
}

/// Encode a byte string as lower-case hex.
pub fn to_hex_lower(data: &[u8]) -> (r: Vec<u8>)
    ensures
        r@ == spec_hex_lower(data@),
        r@.len() == 2 * data@.len(),
{
    let mut r: Vec<u8> = Vec::new();
    let n: usize = data.len();
    let mut i: usize = 0;
    proof {
        assert(data@.take(0int) =~= Seq::<u8>::empty());
    }
    while i < n
        invariant
            i <= n == data@.len(),
            r@ == spec_hex_lower(data@.take(i as int)),
            r@.len() == 2 * i,
        decreases n - i,
    {
        let b: u8 = data[i];
        let hi: u8 = b / 16;
        let lo: u8 = b % 16;
        let dh: u8 = if hi < 10 {
            48 + hi
        } else {
            87 + hi
        };
        let dl: u8 = if lo < 10 {
            48 + lo
        } else {
            87 + lo
        };
        r.push(dh);
        r.push(dl);
        proof {
            let t = data@.take(i + 1int);
            assert(t.drop_last() =~= data@.take(i as int));
            assert(t.last() == data@[i as int]);
            assert(r@ =~= spec_hex_lower(data@.take(i as int)) + seq![
                hex_digit(data@[i as int] / 16),
                hex_digit(data@[i as int] % 16),
            ]);
        }
        i = i + 1;
    }
    proof {
        assert(data@.take(n as int) =~= data@);
    }
    r
}

/// Content identity of a canonical path: the hex form of its digest.
pub open spec fn spec_content_id(path: Seq<u8>) -> Seq<u8> {
    spec_hex_lower(sha256_of(path))
}

/// Content identity of a canonical path, as `spec_content_id` states it.
pub fn sha_path(path: &[u8]) -> (r: Vec<u8>)
    ensures
        r@ == spec_content_id(path@),
{
    let digest = sha256_digest(path);
    to_hex_lower(digest.as_slice())
}

/// Whether two byte strings hold the same bytes.
pub fn eq_bytes(a: &[u8], b: &[u8]) -> (r: bool)
    ensures
        r == (a@ == b@),
{
    matches!(cmp_bytes(a, b), Ordering::Equal)
}

/// The mapping an association sequence denotes; a later entry would win,
/// though the cache keeps keys unique.
pub open spec fn assoc_view(v: Seq<(Vec<u8>, String)>) -> Map<Seq<u8>, Seq<char>>
    decreases v.len(),
{
    if v.len() == 0 {
        Map::empty()
    } else {
        assoc_view(v.drop_last()).insert(v.last().0@, v.last().1@)
    }
}

/// No two entries share a key.
pub open spec fn distinct_keys(v: Seq<(Vec<u8>, String)>) -> bool {
    forall|i: int, j: int| 0 <= i < j < v.len() ==> v[i].0@ != v[j].0@
}

proof fn lemma_assoc_lookup(v: Seq<(Vec<u8>, String)>, k: Seq<u8>)
    ensures
        assoc_view(v).dom().contains(k) <==> exists|i: int| 0 <= i < v.len() && v[i].0@ == k,
        distinct_keys(v) ==> forall|i: int|
            0 <= i < v.len() && v[i].0@ == k ==> assoc_view(v)[k] == v[i].1@,
    decreases v.len(),
{
    if v.len() > 0 {
        lemma_assoc_lookup(v.drop_last(), k);
        if v.last().0@ == k {
            assert(v[v.len() - 1].0@ == k);
        } else {
            assert(forall|i: int|
                0 <= i < v.len() - 1 ==> v.drop_last()[i] == v[i]);
        }
    }
}

proof fn lemma_assoc_update(v: Seq<(Vec<u8>, String)>, i: int, e: (Vec<u8>, String))
    requires
        distinct_keys(v),
        0 <= i < v.len(),
        v[i].0@ == e.0@,
    ensures
        assoc_view(v.update(i, e)) == assoc_view(v).insert(e.0@, e.1@),
        distinct_keys(v.update(i, e)),
    decreases v.len(),
{
    let w = v.update(i, e);
    assert(forall|a: int, b: int| 0 <= a < b < w.len() ==> w[a].0@ != w[b].0@);
    if i == v.len() - 1 {
        assert(w.drop_last() =~= v.drop_last());
        assert(w.last() == e);
        assert(assoc_view(w) =~= assoc_view(v).insert(e.0@, e.1@));
    } else {
        assert(w.drop_last() =~= v.drop_last().update(i, e));
        assert(w.last() == v.last());
        lemma_assoc_update(v.drop_last(), i, e);
        assert(v.last().0@ != e.0@);
        assert(assoc_view(w) =~= assoc_view(v).insert(e.0@, e.1@));
    }
}

proof fn lemma_assoc_remove(v: Seq<(Vec<u8>, String)>, i: int)
    requires
        distinct_keys(v),
        0 <= i < v.len(),
    ensures
        assoc_view(v.remove(i)) == assoc_view(v).remove(v[i].0@),
        distinct_keys(v.remove(i)),
    decreases v.len(),
{
    let w = v.remove(i);
    assert(forall|a: int, b: int| 0 <= a < b < w.len() ==> w[a].0@ != w[b].0@) by {
        assert(forall|a: int| 0 <= a < w.len() ==> w[a] == if a < i {
            v[a]
        } else {
            v[a + 1]
        });
    }
    if i == v.len() - 1 {
        assert(w =~= v.drop_last());
        lemma_assoc_lookup(v.drop_last(), v[i].0@);
        assert(!assoc_view(v.drop_last()).dom().contains(v[i].0@));
        assert(assoc_view(w) =~= assoc_view(v).remove(v[i].0@));
    } else {
        assert(w.drop_last() =~= v.drop_last().remove(i));
        assert(w.last() == v.last());
        lemma_assoc_remove(v.drop_last(), i);
        assert(v.last().0@ != v[i].0@);
        assert(assoc_view(w) =~= assoc_view(v).remove(v[i].0@));
    }
}

/// The two-level content cache.
pub struct ExplorerLoaderCache {
    map: Vec<(Vec<u8>, String)>,
    list: Vec<(String, Vec<Vec<u8>>)>,
}

impl ExplorerLoaderCache {
    /// The direct map: content id to artifact id.
    pub closed spec fn map_view(&self) -> Map<Seq<u8>, Seq<char>> {
        assoc_view(self.map@)
    }

    /// The paths the reverse index records for an artifact; empty when the
    /// artifact is unknown.
    pub closed spec fn paths_of(&self, artifact: Seq<char>) -> Set<Seq<u8>> {
        list_paths(self.list@, artifact)
    }

    /// Keys are unique at both levels.
    pub closed spec fn wf(&self) -> bool {
        &&& distinct_keys(self.map@)
        &&& forall|i: int, j: int|
            0 <= i < j < self.list@.len() ==> self.list@[i].0@ != self.list@[j].0@
    }

    /// A fresh cache: empty at both levels.
    pub fn new() -> (r: Self)
        ensures
            r.wf(),
            r.map_view() == Map::<Seq<u8>, Seq<char>>::empty(),
            forall|a: Seq<char>| r.paths_of(a) == Set::<Seq<u8>>::empty(),
    {
        let r = ExplorerLoaderCache { map: Vec::new(), list: Vec::new() };
        proof {
            assert(forall|a: Seq<char>| r.paths_of(a) =~= Set::<Seq<u8>>::empty());
        }
        r
    }

    /// Artifact recorded for a content id, when one is.
    pub fn get_from_sha(&self, sha: &[u8]) -> (r: Option<String>)
        requires
            self.wf(),
        ensures
            r matches Some(t) ==> self.map_view().dom().contains(sha@) && t@
                == self.map_view()[sha@],
            r is None ==> !self.map_view().dom().contains(sha@),
    {
        proof {
            lemma_assoc_lookup(self.map@, sha@);
        }
        let n: usize = self.map.len();
        let mut i: usize = 0;
        while i < n
            invariant
                self.wf(),
                n == self.map@.len(),
                i <= n,
                forall|j: int| 0 <= j < i ==> self.map@[j].0@ != sha@,
            decreases n - i,
        {
            if eq_bytes(self.map[i].0.as_slice(), sha) {
                proof {
                    assert(self.map@[i as int].0@ == sha@);
                    assert(exists|j: int| 0 <= j < self.map@.len() && self.map@[j].0@ == sha@);
                    assert(distinct_keys(self.map@));
                    lemma_assoc_lookup(self.map@, sha@);
                    assert(self.map_view().dom().contains(sha@));
                    assert(self.map_view()[sha@] == self.map@[i as int].1@);
                }
                return Some(self.map[i].1.clone());
            }
            i = i + 1;
        }
        None
    }

    /// Artifact recorded for a path's content id, when one is.
    pub fn get_from_path(&self, path: &[u8]) -> (r: Option<String>)
        requires
            self.wf(),
        ensures
            r matches Some(t) ==> self.map_view().dom().contains(spec_content_id(path@)) && t@
                == self.map_view()[spec_content_id(path@)],
            r is None ==> !self.map_view().dom().contains(spec_content_id(path@)),
    {
        let sha = sha_path(path);
        self.get_from_sha(sha.as_slice())
    }

    /// Record an artifact for one path: an idempotent upsert into the direct
    /// map, and the path joins the artifact's reverse entry.
    pub fn insert_sha(&mut self, path: &[u8], target: String)
        requires
            old(self).wf(),
        ensures
            final(self).wf(),
            final(self).map_view() == old(self).map_view().insert(spec_content_id(path@), target@),
            final(self).paths_of(target@) == old(self).paths_of(target@).insert(path@),
            forall|a: Seq<char>|
                a != target@ ==> #[trigger] final(self).paths_of(a) == old(self).paths_of(a),
    {
        let sha = sha_path(path);
        self.map_upsert(sha, target.clone());
        self.list_add(target, path);
    }

    /// Delete the direct-map entry for a path; the reverse index is left as
    /// it stands, to be pruned lazily.
    pub fn remove_path(&mut self, path: &[u8])
        requires
            old(self).wf(),
        ensures
            final(self).wf(),
            final(self).map_view() == old(self).map_view().remove(spec_content_id(path@)),
            forall|a: Seq<char>| #[trigger] final(self).paths_of(a) == old(self).paths_of(a),
    {
        let sha = sha_path(path);
        let n: usize = self.map.len();
        let mut i: usize = 0;
        proof {
            lemma_assoc_lookup(self.map@, sha@);
        }
        while i < n
            invariant
                old(self).wf(),
                n == self.map@.len(),
                i <= n,
                *self == *old(self),
                sha@ == spec_content_id(path@),
                forall|j: int| 0 <= j < i ==> self.map@[j].0@ != sha@,
            decreases n - i,
        {
            if eq_bytes(self.map[i].0.as_slice(), sha.as_slice()) {
                proof {
                    lemma_assoc_remove(self.map@, i as int);
                }
                self.map.remove(i);
                return ;
            }
            i = i + 1;
        }
        proof {
            assert(!old(self).map_view().dom().contains(sha@));
            assert(self.map_view() =~= old(self).map_view().remove(sha@));
        }
    }

    /// Upsert one entry of the direct map.
    fn map_upsert(&mut self, sha: Vec<u8>, target: String)
        requires
            old(self).wf(),
        ensures
            final(self).wf(),
            final(self).map_view() == old(self).map_view().insert(sha@, target@),
            final(self).list@ == old(self).list@,
    {
        let n: usize = self.map.len();
        let mut i: usize = 0;
        while i < n
            invariant
                old(self).wf(),
                n == self.map@.len(),
                i <= n,
                *self == *old(self),
                forall|j: int| 0 <= j < i ==> self.map@[j].0@ != sha@,
            decreases n - i,
        {
            if eq_bytes(self.map[i].0.as_slice(), sha.as_slice()) {
                proof {
                    lemma_assoc_update(self.map@, i as int, (sha, target));
                }
                self.map.set(i, (sha, target));
                return ;
            }
            i = i + 1;
        }
        proof {
            let w = self.map@.push((sha, target));
            assert(w.drop_last() =~= self.map@);
            assert(assoc_view(w) =~= assoc_view(self.map@).insert(sha@, target@));
            assert(forall|a: int, b: int| 0 <= a < b < w.len() ==> w[a].0@ != w[b].0@);
        }
        self.map.push((sha, target));
    }

    /// Add a path to an artifact's reverse entry.
    fn list_add(&mut self, target: String, path: &[u8])
        requires
            old(self).wf(),
        ensures
            final(self).wf(),
            final(self).map@ == old(self).map@,
            final(self).paths_of(target@) == old(self).paths_of(target@).insert(path@),
            forall|a: Seq<char>|
                a != target@ ==> #[trigger] final(self).paths_of(a) == old(self).paths_of(a),
    {
        let n: usize = self.list.len();
        let mut i: usize = 0;
        while i < n
            invariant
                old(self).wf(),
                n == self.list@.len(),
                i <= n,
                *self == *old(self),
                forall|j: int| 0 <= j < i ==> self.list@[j].0@ != target@,
            decreases n - i,
        {
            if string_eq(&self.list[i].0, &target) {
                let ghost pre = self.list@;
                let pos: usize = i;
                let mut entry: (String, Vec<Vec<u8>>) = self.list.remove(pos);
                entry.1.push(vstd::slice::slice_to_vec(path));
                self.list.insert(pos, entry);
                proof {
                    assert(self.list@.len() == pre.len());
                    assert(forall|j: int|
                        0 <= j < pre.len() && j != i ==> self.list@[j] == pre[j]);
                    assert(self.list@[i as int].0 == pre[i as int].0);
                    assert(self.list@[i as int].1@.map_values(|p: Vec<u8>| p@) =~= pre[i as int].1@.map_values(
                        |p: Vec<u8>| p@,
                    ).push(path@));
                    lemma_list_paths_update(pre, self.list@, i as int, path@, target@);
                }
                return ;
            }
            i = i + 1;
        }
        let mut single: Vec<Vec<u8>> = Vec::new();
        single.push(vstd::slice::slice_to_vec(path));
        let ghost pre = self.list@;
        self.list.push((target, single));
        proof {
            lemma_list_paths_push(pre, self.list@, path@, target@);
        }
    }

    /// Record an artifact for a path and for each ancestor on the walk
    /// toward the canonical root, as `spec_record_walk` lists them: every
    /// strict descendant of the root on the walk is recorded, and the root
    /// itself is recorded exactly when it carries a file extension.
    pub fn insert_sha_recursive(&mut self, root: &[u8], path: &[u8], target: &str)
        requires
            old(self).wf(),
        ensures
            final(self).wf(),
            recursive_record_post(
                old(self).map_view(),
                final(self).map_view(),
                root@,
                path@,
                target@,
            ),
    {
        let root_is_file = has_extension(root);
        let mut cur: Vec<u8> = vstd::slice::slice_to_vec(path);
        let ghost walk = spec_record_walk(root@, path@);
        let ghost mut processed: Seq<Seq<u8>> = Seq::empty();
        proof {
            assert(processed + spec_record_walk(root@, cur@) =~= walk);
        }
        loop
            invariant_except_break
                processed + spec_record_walk(root@, cur@) =~= walk,
            invariant
                self.wf(),
                root_is_file == spec_has_extension(root@),
                forall|k: Seq<u8>|
                    #[trigger] self.map_view().dom().contains(k) <==> old(
                        self,
                    ).map_view().dom().contains(k) || walk_ids(processed).contains(k),
                forall|k: Seq<u8>|
                    self.map_view().dom().contains(k) ==> self.map_view()[k] == if walk_ids(
                        processed,
                    ).contains(k) {
                        target@
                    } else {
                        old(self).map_view()[k]
                    },
            ensures
                self.wf(),
                walk_ids(processed) == walk_ids(walk),
                processed == walk,
            decreases cur@.len(),
        {
            proof {
                lemma_parent_shorter(cur@);
            }
            let parent = match parent_of(cur.as_slice()) {
                None => {
                    proof {
                        assert(spec_record_walk(root@, cur@) =~= Seq::<Seq<u8>>::empty());
                        assert(processed =~= walk);
                    }
                    break ;
                },
                Some(p) => p,
            };
            let at_root = eq_bytes(cur.as_slice(), root);
            if at_root {
                if root_is_file {
                    self.insert_sha(cur.as_slice(), string_from_str(target));
                    proof {
                        lemma_walk_ids_push(processed, cur@);
                        assert(spec_record_walk(root@, cur@) =~= seq![cur@]);
                        processed = processed.push(cur@);
                        assert(processed =~= walk);
                    }
                } else {
                    proof {
                        assert(spec_record_walk(root@, cur@) =~= Seq::<Seq<u8>>::empty());
                        assert(processed =~= walk);
                    }
                }
                break ;
            } else {
                self.insert_sha(cur.as_slice(), string_from_str(target));
                proof {
                    lemma_walk_ids_push(processed, cur@);
                    assert(spec_record_walk(root@, cur@) =~= seq![cur@] + spec_record_walk(
                        root@,
                        spec_parent(cur@)->Some_0,
                    ));
                    processed = processed.push(cur@);
                    assert(processed + spec_record_walk(root@, parent@) =~= walk);
                }
                cur = parent;
            }
        }
    }
}

/// Pushing a path onto a walk appends its content id to the walk's ids.
proof fn lemma_walk_ids_push(walk: Seq<Seq<u8>>, p: Seq<u8>)
    ensures
        walk_ids(walk.push(p)) =~= walk_ids(walk).push(spec_content_id(p)),
        forall|k: Seq<u8>|
            #[trigger] walk_ids(walk.push(p)).contains(k) <==> walk_ids(walk).contains(k) || k
                == spec_content_id(p),
{
    let ids = walk_ids(walk);
    let pushed = walk_ids(walk.push(p));
    assert(pushed =~= ids.push(spec_content_id(p)));
    assert forall|k: Seq<u8>| #[trigger] pushed.contains(k) implies ids.contains(k) || k
        == spec_content_id(p) by {
        let i = choose|i: int| 0 <= i < pushed.len() && pushed[i] == k;
        if i < ids.len() {
            assert(ids[i] == k);
        }
    }
    assert forall|k: Seq<u8>| ids.contains(k) || k == spec_content_id(p) implies #[trigger] pushed
        .contains(k) by {
        if ids.contains(k) {
            let i = choose|i: int| 0 <= i < ids.len() && ids[i] == k;
            assert(pushed[i] == k);
        } else {
            assert(pushed[ids.len() as int] == k);
        }
    }
}

/// Whether two strings hold the same characters.
fn string_eq(a: &String, b: &String) -> (r: bool)
    ensures
        r == (a@ == b@),
{
    *a == *b
}

/// The walk `insert_sha_recursive` records: the path and its ancestors up to
/// the root, the root itself included exactly when it carries an extension;
/// a walk from a path that never meets the root ends at the top.
pub open spec fn spec_record_walk(root: Seq<u8>, path: Seq<u8>) -> Seq<Seq<u8>>
    decreases path.len(),
    via spec_record_walk_decreases
{
    match spec_parent(path) {
        Option::None => Seq::empty(),
        Option::Some(par) => {
            if path == root {
                if spec_has_extension(root) {
                    seq![path]
                } else {
                    Seq::empty()
                }
            } else {
                seq![path] + spec_record_walk(root, par)
            }
        },
    }
}

#[via_fn]
proof fn spec_record_walk_decreases(root: Seq<u8>, path: Seq<u8>) {
    lemma_parent_shorter(path);
}

/// Content ids of the paths of a walk.
pub open spec fn walk_ids(walk: Seq<Seq<u8>>) -> Seq<Seq<u8>> {
    walk.map_values(|p: Seq<u8>| spec_content_id(p))
}

/// How `insert_sha_recursive` changes the direct map: each walked path's
/// content id now holds the target, and nothing else moved.
pub open spec fn recursive_record_post(
    pre: Map<Seq<u8>, Seq<char>>,
    post: Map<Seq<u8>, Seq<char>>,
    root: Seq<u8>,
    path: Seq<u8>,
    target: Seq<char>,
) -> bool {
    let ids = walk_ids(spec_record_walk(root, path));
    &&& forall|k: Seq<u8>|
        #[trigger] post.dom().contains(k) <==> pre.dom().contains(k) || ids.contains(k)
    &&& forall|k: Seq<u8>|
        post.dom().contains(k) ==> post[k] == if ids.contains(k) {
            target
        } else {
            pre[k]
        }
}

/// The walk meets the root: the root is the path itself or one of its
/// ancestors, and still has a parent of its own.
pub open spec fn walk_reaches_root(root: Seq<u8>, path: Seq<u8>) -> bool
    decreases path.len(),
    via walk_reaches_root_decreases
{
    match spec_parent(path) {
        Option::None => false,
        Option::Some(par) => path == root || walk_reaches_root(root, par),
    }
}

#[via_fn]
proof fn walk_reaches_root_decreases(root: Seq<u8>, path: Seq<u8>) {
    lemma_parent_shorter(path);
}

/// An archive root inherits the artifact recorded beneath it: when the root
/// carries an extension and lies on the walk, its content id resolves to the
/// target after a recursive record.
pub proof fn lemma_archive_root_inherits(
    pre: Map<Seq<u8>, Seq<char>>,
    post: Map<Seq<u8>, Seq<char>>,
    root: Seq<u8>,
    path: Seq<u8>,
    target: Seq<char>,
)
    requires
        recursive_record_post(pre, post, root, path, target),
        spec_has_extension(root),
        walk_reaches_root(root, path),
    ensures
        post.dom().contains(spec_content_id(root)),
        post[spec_content_id(root)] == target,
{
    lemma_walk_contains_root(root, path);
    let walk = spec_record_walk(root, path);
    let i = choose|i: int| 0 <= i < walk.len() && walk[i] == root;
    assert(walk_ids(walk)[i] == spec_content_id(root));
}

proof fn lemma_walk_contains_root(root: Seq<u8>, path: Seq<u8>)
    requires
        spec_has_extension(root),
        walk_reaches_root(root, path),
    ensures
        spec_record_walk(root, path).contains(root),
    decreases path.len(),
{
    lemma_parent_shorter(path);
    let par = spec_parent(path)->Some_0;
    if path == root {
        assert(spec_record_walk(root, path)[0] == root);
    } else {
        lemma_walk_contains_root(root, par);
        let sub = spec_record_walk(root, par);
        let i = choose|i: int| 0 <= i < sub.len() && sub[i] == root;
        assert(spec_record_walk(root, path)[i + 1] == root);
    }
}

/// A directory root does not inherit: when the root has no extension, the
/// walk never records the root itself.
pub proof fn lemma_walk_skips_plain_root(root: Seq<u8>, path: Seq<u8>)
    requires
        !spec_has_extension(root),
    ensures
        !spec_record_walk(root, path).contains(root),
    decreases path.len(),
{
    lemma_parent_shorter(path);
    match spec_parent(path) {
        Option::None => {},
        Option::Some(par) => {
            if path == root {
            } else {
                lemma_walk_skips_plain_root(root, par);
                let walk = spec_record_walk(root, path);
                if walk.contains(root) {
                    let i = choose|i: int| 0 <= i < walk.len() && walk[i] == root;
                    assert(i > 0);
                    assert(spec_record_walk(root, par)[i - 1] == root);
                }
            }
        },
    }
}

/// A directory root keeps what it had: when the root has no extension and no
/// walked path shares the root's content id, the root's entry is unchanged
/// by a recursive record, while every strict descendant on the walk now
/// resolves to the target.
pub proof fn lemma_plain_root_keeps_its_entry(
    pre: Map<Seq<u8>, Seq<char>>,
    post: Map<Seq<u8>, Seq<char>>,
    root: Seq<u8>,
    path: Seq<u8>,
    target: Seq<char>,
)
    requires
        recursive_record_post(pre, post, root, path, target),
        !spec_has_extension(root),
        forall|q: Seq<u8>|
            #[trigger] spec_record_walk(root, path).contains(q) ==> spec_content_id(q)
                != spec_content_id(root),
    ensures
        post.dom().contains(spec_content_id(root)) == pre.dom().contains(spec_content_id(root)),
        pre.dom().contains(spec_content_id(root)) ==> post[spec_content_id(root)]
            == pre[spec_content_id(root)],
        forall|q: Seq<u8>|
            #[trigger] spec_record_walk(root, path).contains(q) ==> post.dom().contains(
                spec_content_id(q),
            ) && post[spec_content_id(q)] == target,
{
    let walk = spec_record_walk(root, path);
    let ids = walk_ids(walk);
    assert(forall|q: Seq<u8>| #[trigger] walk.contains(q) ==> ids.contains(spec_content_id(q)))
        by {
        assert forall|q: Seq<u8>| #[trigger] walk.contains(q) implies ids.contains(
            spec_content_id(q),
        ) by {
            let i = choose|i: int| 0 <= i < walk.len() && walk[i] == q;
            assert(ids[i] == spec_content_id(q));
        }
    }
    if ids.contains(spec_content_id(root)) {
        let i = choose|i: int| 0 <= i < ids.len() && ids[i] == spec_content_id(root);
        assert(spec_record_walk(root, path).contains(walk[i]));
    }
}

/// Copy a string slice into an owned string.
fn string_from_str(s: &str) -> (r: String)
    ensures
        r@ == s@,
{
    String::from_str(s)
}

/// What the reverse index holds for an artifact.
pub open spec fn list_paths(v: Seq<(String, Vec<Vec<u8>>)>, artifact: Seq<char>) -> Set<Seq<u8>>
    decreases v.len(),
{
    if v.len() == 0 {
        Set::empty()
    } else if v.last().0@ == artifact {
        list_paths(v.drop_last(), artifact) + v.last().1@.map_values(|p: Vec<u8>| p@).to_set()
    } else {
        list_paths(v.drop_last(), artifact)
    }
}

proof fn lemma_list_paths_update(
    pre: Seq<(String, Vec<Vec<u8>>)>,
    post: Seq<(String, Vec<Vec<u8>>)>,
    i: int,
    path: Seq<u8>,
    target: Seq<char>,
)
    requires
        0 <= i < pre.len(),
        post.len() == pre.len(),
        forall|j: int| 0 <= j < pre.len() && j != i ==> post[j] == pre[j],
        pre[i].0@ == target,
        post[i].0@ == target,
        post[i].1@.map_values(|p: Vec<u8>| p@) =~= pre[i].1@.map_values(|p: Vec<u8>| p@).push(
            path,
        ),
    ensures
        list_paths(post, target) == list_paths(pre, target).insert(path),
        forall|a: Seq<char>| a != target ==> #[trigger] list_paths(post, a) == list_paths(pre, a),
    decreases pre.len(),
{
    let mapped_pre = pre[i].1@.map_values(|p: Vec<u8>| p@);
    let mapped_post = post[i].1@.map_values(|p: Vec<u8>| p@);
    assert(mapped_post =~= mapped_pre.push(path));
    lemma_to_set_push(mapped_pre, path);
    if i == pre.len() - 1 {
        assert(post.drop_last() =~= pre.drop_last());
        assert(list_paths(post, target) == list_paths(post.drop_last(), target)
            + mapped_post.to_set());
        assert(list_paths(pre, target) == list_paths(pre.drop_last(), target)
            + mapped_pre.to_set());
        assert(list_paths(post, target) =~= list_paths(pre, target).insert(path));
        assert forall|a: Seq<char>| a != target implies #[trigger] list_paths(post, a)
            == list_paths(pre, a) by {
            assert(list_paths(post, a) == list_paths(post.drop_last(), a));
            assert(list_paths(pre, a) == list_paths(pre.drop_last(), a));
        }
    } else {
        assert(post.drop_last()[i] == post[i]);
        assert(forall|j: int|
            0 <= j < pre.len() - 1 && j != i ==> post.drop_last()[j] == pre.drop_last()[j]);
        assert(post.drop_last()[i].1@.map_values(|p: Vec<u8>| p@) =~= pre.drop_last()[i].1@
            .map_values(|p: Vec<u8>| p@).push(path));
        lemma_list_paths_update(pre.drop_last(), post.drop_last(), i, path, target);
        assert(post.last() == pre.last());
        if pre.last().0@ == target {
            assert(list_paths(post, target) == list_paths(post.drop_last(), target) + post.last()
                .1@.map_values(|p: Vec<u8>| p@).to_set());
            assert(list_paths(pre, target) == list_paths(pre.drop_last(), target) + pre.last().1@
                .map_values(|p: Vec<u8>| p@).to_set());
            assert(list_paths(post, target) =~= list_paths(pre, target).insert(path));
        } else {
            assert(list_paths(post, target) == list_paths(post.drop_last(), target));
            assert(list_paths(pre, target) == list_paths(pre.drop_last(), target));
        }
        assert forall|a: Seq<char>| a != target implies #[trigger] list_paths(post, a)
            == list_paths(pre, a) by {
            if pre.last().0@ == a {
                assert(list_paths(post, a) == list_paths(post.drop_last(), a) + post.last().1@
                    .map_values(|p: Vec<u8>| p@).to_set());
                assert(list_paths(pre, a) == list_paths(pre.drop_last(), a) + pre.last().1@
                    .map_values(|p: Vec<u8>| p@).to_set());
            } else {
                assert(list_paths(post, a) == list_paths(post.drop_last(), a));
                assert(list_paths(pre, a) == list_paths(pre.drop_last(), a));
            }
        }
    }
}

proof fn lemma_list_paths_push(
    pre: Seq<(String, Vec<Vec<u8>>)>,
    post: Seq<(String, Vec<Vec<u8>>)>,
    path: Seq<u8>,
    target: Seq<char>,
)
    requires
        post.len() == pre.len() + 1,
        forall|j: int| 0 <= j < pre.len() ==> post[j] == pre[j],
        post.last().0@ == target,
        post.last().1@.len() == 1,
        post.last().1@[0]@ == path,
    ensures
        list_paths(post, target) == list_paths(pre, target).insert(path),
        forall|a: Seq<char>| a != target ==> #[trigger] list_paths(post, a) == list_paths(pre, a),
{
    assert(post.drop_last() =~= pre);
    let mapped = post.last().1@.map_values(|p: Vec<u8>| p@);
    assert(mapped =~= seq![path]);
    assert(mapped.to_set() =~= Set::empty().insert(path)) by {
        assert(mapped[0] == path);
        assert(mapped.contains(path));
        assert forall|x: Seq<u8>| #[trigger] mapped.to_set().contains(x) implies x == path by {
            assert(mapped.contains(x));
        }
    }
    assert(list_paths(post, target) == list_paths(pre, target) + mapped.to_set());
    assert(list_paths(post, target) =~= list_paths(pre, target).insert(path));
    assert forall|a: Seq<char>| a != target implies #[trigger] list_paths(post, a) == list_paths(
        pre,
        a,
    ) by {
        assert(list_paths(post, a) == list_paths(post.drop_last(), a));
    }
}

proof fn lemma_to_set_push(s: Seq<Seq<u8>>, x: Seq<u8>)
    ensures
        s.push(x).to_set() == s.to_set().insert(x),
{
    assert forall|y: Seq<u8>| #[trigger] s.push(x).to_set().contains(y) implies s.to_set().insert(
        x,
    ).contains(y) by {
        assert(s.push(x).contains(y));
        let i = choose|i: int| 0 <= i < s.push(x).len() && s.push(x)[i] == y;
        if i < s.len() {
            assert(s[i] == y);
        }
    }
    assert forall|y: Seq<u8>| s.to_set().insert(x).contains(y) implies #[trigger] s.push(
        x,
    ).to_set().contains(y) by {
        if y == x {
            assert(s.push(x)[s.len() as int] == x);
        } else {
            assert(s.to_set().contains(y));
            let i = choose|i: int| 0 <= i < s.len() && s[i] == y;
            assert(s.push(x)[i] == y);
        }
        assert(s.push(x).contains(y));
    }
    assert(s.push(x).to_set() =~= s.to_set().insert(x));
}

} // verus!
