//! A catalog of directories and a path cache held in memory, and the
//! resolution of a path against them.
//!
//! The service keeps its directories in a database and its cache in a
//! process-wide store. What is here stands in for both where none is at
//! hand, and states what resolving a path does to them.

use crate::models::{PathInfo, PathNode};
use crate::path::{prefix_upto, PathRequest, PathResponse, PathWalk, RequestModel, WalkPhase};
use crate::text::{same_text, split};
use vstd::prelude::*;

verus! {

/// The models of a list of directories.
pub open spec fn path_nodes(nodes: Seq<PathInfo>) -> Seq<PathNode> {
    Seq::new(nodes.len(), |i: int| nodes[i]@)
}

/// The id of the directory of a bucket with a full path, if the list holds
/// one (the last one, should it hold several).
pub open spec fn located(nodes: Seq<PathNode>, bucket_id: i64, full_path: Seq<char>) -> Option<i64>
    decreases nodes.len(),
{
    if nodes.len() == 0 {
        None
    } else if nodes.last().bucket_id == bucket_id && nodes.last().full_path == full_path {
        Some(nodes.last().id)
    } else {
        located(nodes.drop_last(), bucket_id, full_path)
    }
}

/// No two directories of one bucket have the same full path.
pub open spec fn unique_paths(nodes: Seq<PathNode>) -> bool {
    forall|i: int, j: int|
        0 <= i < j < nodes.len() ==> !((#[trigger] nodes[i]).bucket_id == (
        #[trigger] nodes[j]).bucket_id && nodes[i].full_path == nodes[j].full_path)
}

/// A list that holds no directory for a bucket and a path holds none at
/// any index.
pub proof fn lemma_located_none(nodes: Seq<PathNode>, bucket_id: i64, full_path: Seq<char>)
    requires
        located(nodes, bucket_id, full_path) is None,
    ensures
        forall|i: int|
            0 <= i < nodes.len() ==> !((#[trigger] nodes[i]).bucket_id == bucket_id
                && nodes[i].full_path == full_path),
    decreases nodes.len(),
{
    if nodes.len() > 0 {
        lemma_located_none(nodes.drop_last(), bucket_id, full_path);
        assert forall|i: int| 0 <= i < nodes.len() implies !((#[trigger] nodes[i]).bucket_id
            == bucket_id && nodes[i].full_path == full_path) by {
            if i < nodes.len() - 1 {
                assert(nodes.drop_last()[i] == nodes[i]);
            }
        }
    }
}

/// The directories of all buckets, held in memory.
#[derive(Debug)]
pub struct PathTable {
    nodes: Vec<PathInfo>,
}

impl View for PathTable {
    type V = Seq<PathNode>;

    closed spec fn view(&self) -> Seq<PathNode> {
        path_nodes(self.nodes@)
    }
}

impl PathTable {
    /// A table without directories.
    pub fn new() -> (out: Self)
        ensures
            out@ == Seq::<PathNode>::empty(),
    {
        let out = PathTable { nodes: Vec::new() };
        proof {
            assert(out@ =~= Seq::<PathNode>::empty());
        }
        out
    }

    /// Number of directories.
    pub fn len(&self) -> (n: usize)
        ensures
            n == self@.len(),
    {
        self.nodes.len()
    }

    /// The directory at an index, in order of creation.
    pub fn get(&self, index: usize) -> (node: Option<PathInfo>)
        ensures
            index < self@.len() ==> node is Some && node->0@ == self@[index as int],
            index >= self@.len() ==> node is None,
    {
        if index < self.nodes.len() {
            Some(self.nodes[index].clone())
        } else {
            None
        }
    }

    /// Looks for the directory of a bucket with a full path.
    pub fn find(&self, bucket_id: i64, full_path: &str) -> (id: Option<i64>)
        ensures
            id == located(self@, bucket_id, full_path@),
    {
        let mut i: usize = self.nodes.len();
        proof {
            assert(self@.take(i as int) =~= self@);
        }
        while i > 0
            invariant
                i <= self.nodes.len(),
                located(self@, bucket_id, full_path@) == located(
                    self@.take(i as int),
                    bucket_id,
                    full_path@,
                ),
            decreases i,
        {
            proof {
                assert(self@.take(i as int).last() == self.nodes@[i as int - 1]@);
                assert(self@.take(i as int).drop_last() =~= self@.take(i as int - 1));
            }
            let node = &self.nodes[i - 1];
            if node.bucket_id == bucket_id && same_text(node.full_path.as_str(), full_path) {
                return Some(node.id);
            }
            i -= 1;
        }
        None
    }

    /// Adds a directory, unless its bucket has one with the same full
    /// path already: then nothing changes and `false` is returned.
    pub fn insert(&mut self, node: PathInfo) -> (added: bool)
        ensures
            added == (located(old(self)@, node.bucket_id, node.full_path@) is None),
            added ==> final(self)@ == old(self)@.push(node@),
            !added ==> final(self)@ == old(self)@,
            unique_paths(old(self)@) ==> unique_paths(final(self)@),
    {
        if self.find(node.bucket_id, node.full_path.as_str()).is_some() {
            return false;
        }
        let ghost before = self@;
        let ghost model = node@;
        self.nodes.push(node);
        proof {
            assert(self@ =~= before.push(model));
            lemma_located_none(before, model.bucket_id, model.full_path);
            if unique_paths(before) {
                assert forall|i: int, j: int| 0 <= i < j < self@.len() implies !((
                #[trigger] self@[i]).bucket_id == (#[trigger] self@[j]).bucket_id
                    && self@[i].full_path == self@[j].full_path) by {
                    assert(self@[i] == before[i]);
                    if j < before.len() {
                        assert(self@[j] == before[j]);
                    }
                }
            }
        }
        true
    }
}

/// One entry of a path cache.
#[derive(Debug)]
pub struct CacheEntry {
    pub bucket_id: i64,
    pub full_path: String,
    pub id: i64,
}

/// Mathematical model of a [`CacheEntry`].
pub struct CachedPath {
    pub bucket_id: i64,
    pub full_path: Seq<char>,
    pub id: i64,
}

impl View for CacheEntry {
    type V = CachedPath;

    open spec fn view(&self) -> CachedPath {
        CachedPath { bucket_id: self.bucket_id, full_path: self.full_path@, id: self.id }
    }
}

/// The models of a list of cache entries.
pub open spec fn cached_paths(entries: Seq<CacheEntry>) -> Seq<CachedPath> {
    Seq::new(entries.len(), |i: int| entries[i]@)
}

/// The id that a cache holds for a bucket and a path: that of the entry
/// put last.
pub open spec fn cached(entries: Seq<CachedPath>, bucket_id: i64, full_path: Seq<char>) -> Option<
    i64,
>
    decreases entries.len(),
{
    if entries.len() == 0 {
        None
    } else if entries.last().bucket_id == bucket_id && entries.last().full_path == full_path {
        Some(entries.last().id)
    } else {
        cached(entries.drop_last(), bucket_id, full_path)
    }
}

/// A path cache held in memory. It forgets nothing unless it is cleared.
#[derive(Debug)]
pub struct PathCache {
    entries: Vec<CacheEntry>,
}

impl View for PathCache {
    type V = Seq<CachedPath>;

    closed spec fn view(&self) -> Seq<CachedPath> {
        cached_paths(self.entries@)
    }
}

impl PathCache {
    /// An empty cache.
    pub fn new() -> (out: Self)
        ensures
            out@ == Seq::<CachedPath>::empty(),
    {
        let out = PathCache { entries: Vec::new() };
        proof {
            assert(out@ =~= Seq::<CachedPath>::empty());
        }
        out
    }

    /// Number of entries put since the cache was made or cleared.
    pub fn len(&self) -> (n: usize)
        ensures
            n == self@.len(),
    {
        self.entries.len()
    }

    /// Forgets everything.
    pub fn clear(&mut self)
        ensures
            final(self)@ == Seq::<CachedPath>::empty(),
    {
        self.entries.clear();
        proof {
            assert(self@ =~= Seq::<CachedPath>::empty());
        }
    }

    /// The id held for a bucket and a path.
    pub fn get(&self, bucket_id: i64, full_path: &str) -> (id: Option<i64>)
        ensures
            id == cached(self@, bucket_id, full_path@),
    {
        let mut i: usize = self.entries.len();
        proof {
            assert(self@.take(i as int) =~= self@);
        }
        while i > 0
            invariant
                i <= self.entries.len(),
                cached(self@, bucket_id, full_path@) == cached(
                    self@.take(i as int),
                    bucket_id,
                    full_path@,
                ),
            decreases i,
        {
            proof {
                assert(self@.take(i as int).last() == self.entries@[i as int - 1]@);
                assert(self@.take(i as int).drop_last() =~= self@.take(i as int - 1));
            }
            let entry = &self.entries[i - 1];
            if entry.bucket_id == bucket_id && same_text(entry.full_path.as_str(), full_path) {
                return Some(entry.id);
            }
            i -= 1;
        }
        None
    }

    /// Remembers the id of a bucket's path.
    pub fn put(&mut self, bucket_id: i64, full_path: String, id: i64)
        ensures
            final(self)@ == old(self)@.push(CachedPath { bucket_id, full_path: full_path@, id }),
    {
        let ghost before = self@;
        let ghost path = full_path@;
        self.entries.push(CacheEntry { bucket_id, full_path, id });
        proof {
            assert(self@ =~= before.push(CachedPath { bucket_id, full_path: path, id }));
        }
    }
}

/// The directories, the cache, and the id that the next new directory
/// gets.
pub struct World {
    pub nodes: Seq<PathNode>,
    pub cache: Seq<CachedPath>,
    pub next_id: int,
}

/// Resolving one component. What the cache holds is taken. What the
/// cache lacks and the directories hold is put into the cache. What both
/// lack is created under the next id, as a root if it has no parent, and
/// put into the cache.
pub open spec fn resolve_one(
    world: World,
    bucket_id: i64,
    prefix: Seq<char>,
    segment: Seq<char>,
    parent: i64,
    now: Seq<char>,
) -> (World, i64) {
    match cached(world.cache, bucket_id, prefix) {
        Some(id) => (world, id),
        None => match located(world.nodes, bucket_id, prefix) {
            Some(id) => (
                World {
                    cache: world.cache.push(CachedPath { bucket_id, full_path: prefix, id }),
                    ..world
                },
                id,
            ),
            None => {
                let id = world.next_id as i64;
                (
                    World {
                        nodes: world.nodes.push(
                            PathNode {
                                id,
                                bucket_id,
                                root: parent == 0,
                                path: segment,
                                parent,
                                full_path: prefix,
                                create_time: now,
                            },
                        ),
                        cache: world.cache.push(CachedPath { bucket_id, full_path: prefix, id }),
                        next_id: world.next_id + 1,
                    },
                    id,
                )
            },
        },
    }
}

/// Resolving the first `count` components of a path, one after another,
/// each under the one before. The id is that of the last of them; 0 for
/// none.
pub open spec fn resolve_upto(
    world: World,
    bucket_id: i64,
    segments: Seq<Seq<char>>,
    count: int,
    now: Seq<char>,
) -> (World, i64)
    decreases count,
{
    if count <= 0 {
        (world, 0)
    } else {
        let (before, parent) = resolve_upto(world, bucket_id, segments, count - 1, now);
        resolve_one(
            before,
            bucket_id,
            prefix_upto(segments, count),
            segments[count - 1],
            parent,
            now,
        )
    }
}

/// Resolving a path: all of its components.
pub open spec fn resolved(world: World, bucket_id: i64, full_path: Seq<char>, now: Seq<char>) -> (
    World,
    i64,
) {
    resolve_upto(
        world,
        bucket_id,
        split(full_path, '/'),
        split(full_path, '/').len() as int,
        now,
    )
}

/// Resolving one component keeps what the cache held, and leaves the
/// component in the cache under the id it returns. It never takes a
/// directory away, and adds at most one.
pub proof fn lemma_resolve_one(
    world: World,
    bucket_id: i64,
    prefix: Seq<char>,
    segment: Seq<char>,
    parent: i64,
    now: Seq<char>,
)
    ensures
        ({
            let (after, id) = resolve_one(world, bucket_id, prefix, segment, parent, now);
            &&& cached(after.cache, bucket_id, prefix) == Some(id)
            &&& forall|b: i64, p: Seq<char>|
                cached(world.cache, b, p) is Some ==> #[trigger] cached(after.cache, b, p)
                    == cached(world.cache, b, p)
            &&& after.nodes == world.nodes || after.nodes == world.nodes.push(after.nodes.last())
            &&& world.nodes.len() <= after.nodes.len() <= world.nodes.len() + 1
            &&& world.next_id <= after.next_id <= world.next_id + 1
            &&& located(world.nodes, bucket_id, prefix) is Some ==> after.nodes == world.nodes
        }),
{
    let (after, id) = resolve_one(world, bucket_id, prefix, segment, parent, now);
    if cached(world.cache, bucket_id, prefix) is None {
        assert(after.cache.drop_last() =~= world.cache);
        assert forall|b: i64, p: Seq<char>| cached(world.cache, b, p) is Some implies #[trigger] cached(
            after.cache,
            b,
            p,
        ) == cached(world.cache, b, p) by {
            if b == bucket_id && p == prefix {
            }
        }
        if located(world.nodes, bucket_id, prefix) is None {
            assert(after.nodes.last() == after.nodes[after.nodes.len() - 1]);
        }
    }
}

/// After the first `count` components of a path are resolved, the cache
/// holds each of them under the id found for it.
pub proof fn lemma_resolved_are_cached(
    world: World,
    bucket_id: i64,
    segments: Seq<Seq<char>>,
    count: int,
    now: Seq<char>,
)
    requires
        0 <= count,
    ensures
        forall|k: int|
            1 <= k <= count ==> cached(
                resolve_upto(world, bucket_id, segments, count, now).0.cache,
                bucket_id,
                #[trigger] prefix_upto(segments, k),
            ) == Some(resolve_upto(world, bucket_id, segments, k, now).1),
        world.nodes.len() <= resolve_upto(world, bucket_id, segments, count, now).0.nodes.len()
            <= world.nodes.len() + count,
    decreases count,
{
    if count > 0 {
        lemma_resolved_are_cached(world, bucket_id, segments, count - 1, now);
        let (before, parent) = resolve_upto(world, bucket_id, segments, count - 1, now);
        lemma_resolve_one(
            before,
            bucket_id,
            prefix_upto(segments, count),
            segments[count - 1],
            parent,
            now,
        );
        let after = resolve_upto(world, bucket_id, segments, count, now).0;
        assert forall|k: int| 1 <= k <= count implies cached(
            after.cache,
            bucket_id,
            #[trigger] prefix_upto(segments, k),
        ) == Some(resolve_upto(world, bucket_id, segments, k, now).1) by {
            if k < count {
                assert(cached(before.cache, bucket_id, prefix_upto(segments, k)) is Some);
            }
        }
    }
}

/// In a world whose cache holds the first `count` components of a path,
/// resolving them changes nothing and returns what the cache holds.
pub proof fn lemma_cached_resolve_nothing(
    world: World,
    bucket_id: i64,
    segments: Seq<Seq<char>>,
    count: int,
    now: Seq<char>,
)
    requires
        0 <= count,
        forall|k: int|
            1 <= k <= count ==> cached(world.cache, bucket_id, #[trigger] prefix_upto(segments, k))
                is Some,
    ensures
        resolve_upto(world, bucket_id, segments, count, now).0 == world,
        count >= 1 ==> Some(resolve_upto(world, bucket_id, segments, count, now).1) == cached(
            world.cache,
            bucket_id,
            prefix_upto(segments, count),
        ),
    decreases count,
{
    if count > 0 {
        lemma_cached_resolve_nothing(world, bucket_id, segments, count - 1, now);
        assert(cached(world.cache, bucket_id, prefix_upto(segments, count)) is Some);
    }
}

/// Resolving a path a second time yields the same directory as the first
/// time and creates nothing: the directories and the cache stay as the
/// first resolution left them. The first resolution creates at most one
/// directory for each component of the path.
pub proof fn lemma_resolve_idempotent(
    world: World,
    bucket_id: i64,
    full_path: Seq<char>,
    now: Seq<char>,
)
    ensures
        ({
            let (first, id) = resolved(world, bucket_id, full_path, now);
            &&& resolved(first, bucket_id, full_path, now) == (first, id)
            &&& world.nodes.len() <= first.nodes.len() <= world.nodes.len() + split(
                full_path,
                '/',
            ).len()
        }),
{
    let segments = split(full_path, '/');
    let count = segments.len() as int;
    crate::text::lemma_split_nonempty(full_path, '/');
    let (first, id) = resolved(world, bucket_id, full_path, now);
    lemma_resolved_are_cached(world, bucket_id, segments, count, now);
    lemma_cached_resolve_nothing(first, bucket_id, segments, count, now);
}

/// A cache agrees with the directories when every id that it holds for a
/// bucket and a path is the id of the bucket's directory with that path.
pub open spec fn coherent(world: World) -> bool {
    forall|i: int|
        0 <= i < world.cache.len() ==> located(
            world.nodes,
            (#[trigger] world.cache[i]).bucket_id,
            world.cache[i].full_path,
        ) == Some(world.cache[i].id)
}

/// What a cache holds for a bucket and a path is one of its entries.
pub proof fn lemma_cached_is_entry(entries: Seq<CachedPath>, bucket_id: i64, full_path: Seq<char>)
    requires
        cached(entries, bucket_id, full_path) is Some,
    ensures
        exists|i: int|
            0 <= i < entries.len() && #[trigger] entries[i] == (CachedPath {
                bucket_id,
                full_path,
                id: cached(entries, bucket_id, full_path)->0,
            }),
    decreases entries.len(),
{
    if entries.last().bucket_id == bucket_id && entries.last().full_path == full_path {
        assert(entries[entries.len() - 1] == entries.last());
    } else {
        lemma_cached_is_entry(entries.drop_last(), bucket_id, full_path);
        let i = choose|i: int|
            0 <= i < entries.drop_last().len() && #[trigger] entries.drop_last()[i] == (CachedPath {
                bucket_id,
                full_path,
                id: cached(entries.drop_last(), bucket_id, full_path)->0,
            });
        assert(entries[i] == entries.drop_last()[i]);
    }
}

/// Where the cache agrees with the directories, resolving one component
/// keeps it so; the component is then among the directories under the id
/// returned, and no directory that was there has gone or changed its id.
pub proof fn lemma_resolve_one_coherent(
    world: World,
    bucket_id: i64,
    prefix: Seq<char>,
    segment: Seq<char>,
    parent: i64,
    now: Seq<char>,
)
    requires
        coherent(world),
    ensures
        ({
            let (after, id) = resolve_one(world, bucket_id, prefix, segment, parent, now);
            &&& coherent(after)
            &&& located(after.nodes, bucket_id, prefix) == Some(id)
            &&& forall|b: i64, p: Seq<char>|
                located(world.nodes, b, p) is Some ==> #[trigger] located(after.nodes, b, p)
                    == located(world.nodes, b, p)
            &&& located(world.nodes, bucket_id, prefix) is Some ==> after.nodes == world.nodes
        }),
{
    let (after, id) = resolve_one(world, bucket_id, prefix, segment, parent, now);
    match cached(world.cache, bucket_id, prefix) {
        Some(hit) => {
            lemma_cached_is_entry(world.cache, bucket_id, prefix);
        },
        None => {
            assert(after.cache.drop_last() =~= world.cache);
            if located(world.nodes, bucket_id, prefix) is None {
                assert(after.nodes.drop_last() =~= world.nodes);
            }
            assert forall|i: int| 0 <= i < after.cache.len() implies located(
                after.nodes,
                (#[trigger] after.cache[i]).bucket_id,
                after.cache[i].full_path,
            ) == Some(after.cache[i].id) by {
                if i < world.cache.len() {
                    assert(after.cache[i] == world.cache[i]);
                }
            }
        },
    }
}

/// Where the cache agrees with the directories, so it does after the
/// first `count` components of a path are resolved; each of them is then
/// among the directories under the id found for it, and no directory that
/// was there has gone or changed its id.
pub proof fn lemma_resolved_are_located(
    world: World,
    bucket_id: i64,
    segments: Seq<Seq<char>>,
    count: int,
    now: Seq<char>,
)
    requires
        0 <= count,
        coherent(world),
    ensures
        coherent(resolve_upto(world, bucket_id, segments, count, now).0),
        forall|k: int|
            1 <= k <= count ==> located(
                resolve_upto(world, bucket_id, segments, count, now).0.nodes,
                bucket_id,
                #[trigger] prefix_upto(segments, k),
            ) == Some(resolve_upto(world, bucket_id, segments, k, now).1),
        forall|b: i64, p: Seq<char>|
            located(world.nodes, b, p) is Some ==> #[trigger] located(
                resolve_upto(world, bucket_id, segments, count, now).0.nodes,
                b,
                p,
            ) == located(world.nodes, b, p),
    decreases count,
{
    if count > 0 {
        lemma_resolved_are_located(world, bucket_id, segments, count - 1, now);
        let (before, parent) = resolve_upto(world, bucket_id, segments, count - 1, now);
        lemma_resolve_one_coherent(
            before,
            bucket_id,
            prefix_upto(segments, count),
            segments[count - 1],
            parent,
            now,
        );
        let after = resolve_upto(world, bucket_id, segments, count, now).0;
        assert forall|k: int| 1 <= k <= count implies located(
            after.nodes,
            bucket_id,
            #[trigger] prefix_upto(segments, k),
        ) == Some(resolve_upto(world, bucket_id, segments, k, now).1) by {
            if k < count {
                assert(located(before.nodes, bucket_id, prefix_upto(segments, k)) is Some);
            }
        }
        assert forall|b: i64, p: Seq<char>| located(world.nodes, b, p) is Some implies #[trigger] located(
            after.nodes,
            b,
            p,
        ) == located(world.nodes, b, p) by {
            assert(located(before.nodes, b, p) == located(world.nodes, b, p));
        }
    }
}

/// Where the cache agrees with the directories and the directories hold
/// the first `count` components of a path, resolving them creates nothing
/// and returns the ids that the directories hold, whatever the cache
/// holds of them.
pub proof fn lemma_located_resolve_nothing(
    world: World,
    bucket_id: i64,
    segments: Seq<Seq<char>>,
    count: int,
    now: Seq<char>,
)
    requires
        0 <= count,
        coherent(world),
        forall|k: int|
            1 <= k <= count ==> located(world.nodes, bucket_id, #[trigger] prefix_upto(segments, k))
                is Some,
    ensures
        resolve_upto(world, bucket_id, segments, count, now).0.nodes == world.nodes,
        coherent(resolve_upto(world, bucket_id, segments, count, now).0),
        count >= 1 ==> Some(resolve_upto(world, bucket_id, segments, count, now).1) == located(
            world.nodes,
            bucket_id,
            prefix_upto(segments, count),
        ),
    decreases count,
{
    if count > 0 {
        lemma_located_resolve_nothing(world, bucket_id, segments, count - 1, now);
        let (before, parent) = resolve_upto(world, bucket_id, segments, count - 1, now);
        assert(located(world.nodes, bucket_id, prefix_upto(segments, count)) is Some);
        lemma_resolve_one_coherent(
            before,
            bucket_id,
            prefix_upto(segments, count),
            segments[count - 1],
            parent,
            now,
        );
    }
}

/// A cache that has forgotten everything does no harm: where the cache
/// agreed with the directories before a path was resolved, resolving the
/// path again with an empty cache yields the same directory from the
/// catalog and creates nothing.
pub proof fn lemma_resolve_after_cache_loss(
    world: World,
    bucket_id: i64,
    full_path: Seq<char>,
    now: Seq<char>,
)
    requires
        coherent(world),
    ensures
        ({
            let (first, id) = resolved(world, bucket_id, full_path, now);
            let emptied = World { cache: Seq::<CachedPath>::empty(), ..first };
            let (second, again) = resolved(emptied, bucket_id, full_path, now);
            &&& again == id
            &&& second.nodes == first.nodes
        }),
{
    let segments = split(full_path, '/');
    let count = segments.len() as int;
    crate::text::lemma_split_nonempty(full_path, '/');
    let (first, id) = resolved(world, bucket_id, full_path, now);
    lemma_resolved_are_located(world, bucket_id, segments, count, now);
    let emptied = World { cache: Seq::<CachedPath>::empty(), ..first };
    lemma_located_resolve_nothing(emptied, bucket_id, segments, count, now);
}

/// Resolves a path against a table of directories and a cache, creating
/// the directories that are missing under ids counted up from
/// `first_id`.
pub fn resolve(
    table: &mut PathTable,
    cache: &mut PathCache,
    bucket_id: i64,
    full_path: &str,
    first_id: i64,
    now: &str,
) -> (id: i64)
    requires
        first_id + split(full_path@, '/').len() <= i64::MAX,
    ensures
        ({
            let start = World { nodes: old(table)@, cache: old(cache)@, next_id: first_id as int };
            let (end, found) = resolved(start, bucket_id, full_path@, now@);
            &&& final(table)@ == end.nodes
            &&& final(cache)@ == end.cache
            &&& id == found
        }),
{
    let ghost start = World { nodes: table@, cache: cache@, next_id: first_id as int };
    let ghost segments = split(full_path@, '/');
    let mut next_id: i64 = first_id;
    let (mut walk, mut request) = PathWalk::start(bucket_id, full_path);
    proof {
        crate::path::lemma_start_well_formed(bucket_id, full_path@);
        crate::text::lemma_split_nonempty(full_path@, '/');
    }
    loop
        invariant
            segments == split(full_path@, '/'),
            start == (World { nodes: old(table)@, cache: old(cache)@, next_id: first_id as int }),
            first_id + segments.len() <= i64::MAX,
            walk@.well_formed(),
            walk@.segments == segments,
            walk@.bucket_id == bucket_id,
            walk@.phase == WalkPhase::CacheLookup,
            request@ == (RequestModel::CacheGet { bucket_id, full_path: walk@.prefix }),
            resolve_upto(start, bucket_id, segments, walk@.index, now@) == (
                World { nodes: table@, cache: cache@, next_id: next_id as int },
                walk@.parent,
            ),
            first_id <= next_id <= first_id + walk@.index,
        decreases segments.len() - walk@.index,
    {
        let ghost state = walk@;
        let ghost before = World { nodes: table@, cache: cache@, next_id: next_id as int };
        let prefix = match request {
            PathRequest::CacheGet { bucket_id: _, full_path } => full_path,
            _ => {
                proof {
                    assert(false);
                }
                String::new()
            },
        };
        let hit = cache.get(bucket_id, prefix.as_str());
        let stepped = match hit {
            Some(id) => walk.step(PathResponse::CacheHit(id), next_id, now),
            None => {
                let (walk1, _) = walk.step(PathResponse::CacheMiss, next_id, now);
                match table.find(bucket_id, prefix.as_str()) {
                    Some(id) => {
                        let (walk2, _) = walk1.step(PathResponse::Found(id), next_id, now);
                        cache.put(bucket_id, prefix, id);
                        walk2.step(PathResponse::Stored, next_id, now)
                    },
                    None => {
                        let (walk2, insert) = walk1.step(PathResponse::NotFound, next_id, now);
                        let node = match insert {
                            PathRequest::CatalogInsert { node } => node,
                            _ => {
                                proof {
                                    assert(false);
                                }
                                return 0;
                            },
                        };
                        let added = table.insert(node);
                        let id = next_id;
                        next_id = next_id + 1;
                        let (walk3, _) = walk2.step(PathResponse::Inserted, next_id, now);
                        cache.put(bucket_id, prefix, id);
                        walk3.step(PathResponse::Stored, next_id, now)
                    },
                }
            },
        };
        walk = stepped.0;
        request = stepped.1;
        proof {
            assert(resolve_upto(start, bucket_id, segments, state.index + 1, now@) == resolve_one(
                before,
                bucket_id,
                prefix_upto(segments, state.index + 1),
                segments[state.index],
                state.parent,
                now@,
            ));
            assert(resolve_upto(start, bucket_id, segments, state.index + 1, now@) == (
                World { nodes: table@, cache: cache@, next_id: next_id as int },
                walk@.parent,
            ));
        }
        match request {
            PathRequest::Done { id } => {
                proof {
                    assert(state.index + 1 == segments.len());
                    assert(id == walk@.parent);
                }
                return id;
            },
            _ => {},
        }
    }
}

/// Resolves a path as [`resolve`] does, unless the ids counted up from
/// `first_id`, one for each component of the path, could leave 64 bits:
/// then nothing is resolved and nothing changes.
pub fn try_resolve(
    table: &mut PathTable,
    cache: &mut PathCache,
    bucket_id: i64,
    full_path: &str,
    first_id: i64,
    now: &str,
) -> (id: Option<i64>)
    ensures
        id is Some <==> first_id + split(full_path@, '/').len() <= i64::MAX,
        id is None ==> final(table)@ == old(table)@ && final(cache)@ == old(cache)@,
        id is Some ==> ({
            let start = World { nodes: old(table)@, cache: old(cache)@, next_id: first_id as int };
            let (end, found) = resolved(start, bucket_id, full_path@, now@);
            &&& final(table)@ == end.nodes
            &&& final(cache)@ == end.cache
            &&& id == Some(found)
        }),
{
    let parts = crate::text::split_on(full_path, '/');
    let count = parts.len();
    proof {
        assert(crate::text::texts(parts@).len() == parts@.len());
    }
    if first_id as i128 + count as i128 > i64::MAX as i128 {
        return None;
    }
    Some(resolve(table, cache, bucket_id, full_path, first_id, now))
}

} // verus!
