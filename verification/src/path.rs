//! Resolving a virtual path to a directory of a bucket, one component at a
//! time, creating the directories that are missing.
//!
//! The cache and the catalog live outside this library. A [`PathWalk`]
//! says what to ask of them next and takes their answer: the caller
//! performs each [`PathRequest`] and hands the [`PathResponse`] to
//! [`PathWalk::step`], until the walk is done.

use crate::models::{PathInfo, PathNode};
use crate::text::{concat_with, join, split, split_on, texts};
use vstd::prelude::*;

verus! {

/// The full path of a directory named `segment` under the directory with
/// full path `prefix`; at the top of a bucket the prefix is empty.
pub open spec fn extend_prefix(prefix: Seq<char>, segment: Seq<char>) -> Seq<char> {
    if prefix.len() == 0 {
        segment
    } else {
        prefix.push('/') + segment
    }
}

/// The full path of the directory reached after the first `n` components.
pub open spec fn prefix_upto(segments: Seq<Seq<char>>, n: int) -> Seq<char>
    decreases n,
{
    if n <= 0 {
        Seq::<char>::empty()
    } else {
        extend_prefix(prefix_upto(segments, n - 1), segments[n - 1])
    }
}

/// Where the first component is not empty, the path reached after `n`
/// components is those components joined by `/`.
pub proof fn lemma_prefix_is_join(segments: Seq<Seq<char>>, n: int)
    requires
        1 <= n <= segments.len(),
        segments[0].len() > 0,
    ensures
        prefix_upto(segments, n) == join(segments.take(n), '/'),
        prefix_upto(segments, n).len() > 0,
    decreases n,
{
    if n == 1 {
        assert(prefix_upto(segments, 0) =~= Seq::<char>::empty());
        assert(segments.take(1)[0] == segments[0]);
    } else {
        lemma_prefix_is_join(segments, n - 1);
        assert(segments.take(n).drop_last() =~= segments.take(n - 1));
        assert(segments.take(n).last() == segments[n - 1]);
    }
}

/// A path that does not start with `/` is the path reached after all of
/// its components: the walk ends at the directory the path names.
pub proof fn lemma_walk_ends_at_path(path: Seq<char>)
    requires
        path.len() > 0,
        path[0] != '/',
    ensures
        prefix_upto(split(path, '/'), split(path, '/').len() as int) == path,
{
    let segments = split(path, '/');
    crate::text::lemma_split_nonempty(path, '/');
    crate::text::lemma_join_split(path, '/');
    lemma_first_part(path, '/');
    lemma_prefix_is_join(segments, segments.len() as int);
    assert(segments.take(segments.len() as int) =~= segments);
}

/// The first part of a split is empty only where the text is empty or
/// starts with the separator.
proof fn lemma_first_part(s: Seq<char>, sep: char)
    requires
        s.len() > 0,
        s[0] != sep,
    ensures
        split(s, sep).len() >= 1,
        split(s, sep)[0].len() > 0,
    decreases s.len(),
{
    crate::text::lemma_split_nonempty(s, sep);
    crate::text::lemma_split_nonempty(s.drop_last(), sep);
    if s.len() == 1 {
        assert(s.drop_last() =~= Seq::<char>::empty());
        assert(split(s.drop_last(), sep) =~= seq![Seq::<char>::empty()]);
    } else {
        assert(s.drop_last()[0] == s[0]);
        lemma_first_part(s.drop_last(), sep);
    }
}

/// What a walk waits for.
#[derive(Clone, Copy, Debug, PartialEq, Eq, Structural)]
pub enum WalkPhase {
    /// The answer of the cache for the current prefix.
    CacheLookup,
    /// The answer of the catalog for the current prefix.
    CatalogLookup,
    /// The outcome of creating the directory for the current prefix.
    Creating,
    /// The cache's acknowledgement of the id for the current prefix.
    Caching,
    /// Nothing: the walk has ended with the id of the last component.
    Done,
    /// Nothing: the walk was given an answer that it had not asked for.
    Failed,
}

/// What the caller has to do next for a walk.
#[derive(Debug)]
pub enum PathRequest {
    /// Look the path up in the path cache, under the bucket and the path.
    CacheGet { bucket_id: i64, full_path: String },
    /// Look in the catalog for the directory of the bucket with this path.
    CatalogFind { bucket_id: i64, full_path: String },
    /// Add the directory to the catalog, unless the bucket has one with
    /// the same full path already.
    CatalogInsert { node: PathInfo },
    /// Remember the id of the path in the path cache.
    CachePut { bucket_id: i64, full_path: String, id: i64 },
    /// Nothing more: the path names the directory with this id.
    Done { id: i64 },
    /// Nothing more: the walk cannot go on.
    Failed,
}

/// Mathematical model of a [`PathRequest`].
pub enum RequestModel {
    CacheGet { bucket_id: i64, full_path: Seq<char> },
    CatalogFind { bucket_id: i64, full_path: Seq<char> },
    CatalogInsert { node: PathNode },
    CachePut { bucket_id: i64, full_path: Seq<char>, id: i64 },
    Done { id: i64 },
    Failed,
}

impl View for PathRequest {
    type V = RequestModel;

    open spec fn view(&self) -> RequestModel {
        match self {
            PathRequest::CacheGet { bucket_id, full_path } => RequestModel::CacheGet {
                bucket_id: *bucket_id,
                full_path: full_path@,
            },
            PathRequest::CatalogFind { bucket_id, full_path } => RequestModel::CatalogFind {
                bucket_id: *bucket_id,
                full_path: full_path@,
            },
            PathRequest::CatalogInsert { node } => RequestModel::CatalogInsert { node: node@ },
            PathRequest::CachePut { bucket_id, full_path, id } => RequestModel::CachePut {
                bucket_id: *bucket_id,
                full_path: full_path@,
                id: *id,
            },
            PathRequest::Done { id } => RequestModel::Done { id: *id },
            PathRequest::Failed => RequestModel::Failed,
        }
    }
}

/// What the cache or the catalog answered.
#[derive(Clone, Copy, Debug, PartialEq, Eq, Structural)]
pub enum PathResponse {
    /// The cache holds this id for the path.
    CacheHit(i64),
    /// The cache holds nothing for the path.
    CacheMiss,
    /// The catalog holds the directory, under this id.
    Found(i64),
    /// The catalog holds no such directory.
    NotFound,
    /// The directory was added to the catalog.
    Inserted,
    /// The directory was not added: the bucket has one with that full path.
    Conflict,
    /// The cache took the id.
    Stored,
}

/// Mathematical model of a [`PathWalk`].
pub struct WalkState {
    pub bucket_id: i64,
    pub segments: Seq<Seq<char>>,
    /// Index of the component being resolved.
    pub index: int,
    /// Full path of the component being resolved.
    pub prefix: Seq<char>,
    /// Id found for the component before; 0 at the first.
    pub parent: i64,
    pub phase: WalkPhase,
    /// Id found or made for the component being resolved.
    pub pending: i64,
}

impl WalkState {
    /// The walk is at a component of its path, and its prefix is the
    /// path down to that component.
    pub open spec fn well_formed(self) -> bool {
        &&& 0 <= self.index < self.segments.len()
        &&& self.prefix == prefix_upto(self.segments, self.index + 1)
    }

    /// The directory to create for the component being resolved.
    pub open spec fn new_node(self, id: i64, now: Seq<char>) -> PathNode {
        PathNode {
            id,
            bucket_id: self.bucket_id,
            root: self.parent == 0,
            path: if 0 <= self.index < self.segments.len() {
                self.segments[self.index]
            } else {
                Seq::<char>::empty()
            },
            parent: self.parent,
            full_path: self.prefix,
            create_time: now,
        }
    }

    /// With the id of the current component known, the walk goes on to
    /// the next component, or ends if there is none.
    pub open spec fn advance(self, id: i64) -> (WalkState, RequestModel) {
        if 0 <= self.index + 1 < self.segments.len() {
            let prefix = extend_prefix(self.prefix, self.segments[self.index + 1]);
            (
                WalkState {
                    index: self.index + 1,
                    prefix,
                    parent: id,
                    phase: WalkPhase::CacheLookup,
                    pending: 0,
                    ..self
                },
                RequestModel::CacheGet { bucket_id: self.bucket_id, full_path: prefix },
            )
        } else {
            (
                WalkState { parent: id, phase: WalkPhase::Done, pending: 0, ..self },
                RequestModel::Done { id },
            )
        }
    }

    /// One step of the walk. On a cache hit the walk goes on with the
    /// cached id. On a miss it asks the catalog; what the catalog holds is
    /// cached and the walk goes on. What the catalog lacks is created under
    /// `fresh_id`, as a root if it has no parent, then cached. A conflict
    /// on creation means that someone else created the directory
    /// meanwhile: the walk asks the catalog again. An answer that does not
    /// fit the question ends the walk as failed.
    pub open spec fn step(self, response: PathResponse, fresh_id: i64, now: Seq<char>) -> (
        WalkState,
        RequestModel,
    ) {
        match (self.phase, response) {
            (WalkPhase::CacheLookup, PathResponse::CacheHit(id)) => self.advance(id),
            (WalkPhase::CacheLookup, PathResponse::CacheMiss) => (
                WalkState { phase: WalkPhase::CatalogLookup, ..self },
                RequestModel::CatalogFind { bucket_id: self.bucket_id, full_path: self.prefix },
            ),
            (WalkPhase::CatalogLookup, PathResponse::Found(id)) => (
                WalkState { phase: WalkPhase::Caching, pending: id, ..self },
                RequestModel::CachePut { bucket_id: self.bucket_id, full_path: self.prefix, id },
            ),
            (WalkPhase::CatalogLookup, PathResponse::NotFound) => (
                WalkState { phase: WalkPhase::Creating, pending: fresh_id, ..self },
                RequestModel::CatalogInsert { node: self.new_node(fresh_id, now) },
            ),
            (WalkPhase::Creating, PathResponse::Inserted) => (
                WalkState { phase: WalkPhase::Caching, ..self },
                RequestModel::CachePut {
                    bucket_id: self.bucket_id,
                    full_path: self.prefix,
                    id: self.pending,
                },
            ),
            (WalkPhase::Creating, PathResponse::Conflict) => (
                WalkState { phase: WalkPhase::CatalogLookup, pending: 0, ..self },
                RequestModel::CatalogFind { bucket_id: self.bucket_id, full_path: self.prefix },
            ),
            (WalkPhase::Caching, PathResponse::Stored) => self.advance(self.pending),
            _ => (WalkState { phase: WalkPhase::Failed, ..self }, RequestModel::Failed),
        }
    }
}

/// The walk at its start: at the first component of the path, asking the
/// cache for it.
pub open spec fn walk_start(bucket_id: i64, full_path: Seq<char>) -> (WalkState, RequestModel) {
    let segments = split(full_path, '/');
    (
        WalkState {
            bucket_id,
            segments,
            index: 0,
            prefix: segments[0],
            parent: 0,
            phase: WalkPhase::CacheLookup,
            pending: 0,
        },
        RequestModel::CacheGet { bucket_id, full_path: segments[0] },
    )
}

/// A walk starts well-formed.
pub proof fn lemma_start_well_formed(bucket_id: i64, full_path: Seq<char>)
    ensures
        walk_start(bucket_id, full_path).0.well_formed(),
{
    let segments = split(full_path, '/');
    crate::text::lemma_split_nonempty(full_path, '/');
    assert(prefix_upto(segments, 0) =~= Seq::<char>::empty());
    assert(prefix_upto(segments, 1) == extend_prefix(prefix_upto(segments, 0), segments[0]));
}

/// Every step keeps a walk well-formed, whatever the answer; and a walk
/// that is done has reached its last component, so the id it reports is
/// the one found or made for the whole path.
pub proof fn lemma_step_well_formed(
    state: WalkState,
    response: PathResponse,
    fresh_id: i64,
    now: Seq<char>,
)
    requires
        state.well_formed(),
    ensures
        state.step(response, fresh_id, now).0.well_formed(),
        state.step(response, fresh_id, now).1 is Done && state.phase != WalkPhase::Done ==> {
            &&& state.index == state.segments.len() - 1
            &&& state.prefix == prefix_upto(state.segments, state.segments.len() as int)
        },
{
}

/// A directory is created only for a prefix that both the cache and the
/// catalog said they lack, and its record is consistent: it is a root
/// exactly when it has no parent, it carries the component as its name and
/// the prefix as its full path.
pub proof fn lemma_created_node(
    state: WalkState,
    response: PathResponse,
    fresh_id: i64,
    now: Seq<char>,
)
    requires
        state.well_formed(),
        state.step(response, fresh_id, now).1 is CatalogInsert,
    ensures
        state.phase == WalkPhase::CatalogLookup,
        response == PathResponse::NotFound,
        ({
            let node = state.step(response, fresh_id, now).1->node;
            &&& node.well_formed()
            &&& node.id == fresh_id
            &&& node.bucket_id == state.bucket_id
            &&& node.path == state.segments[state.index]
            &&& node.full_path == prefix_upto(state.segments, state.index + 1)
            &&& node.parent == state.parent
        }),
{
}

/// A path being resolved, one component at a time.
#[derive(Debug)]
pub struct PathWalk {
    bucket_id: i64,
    segments: Vec<String>,
    index: usize,
    prefix: String,
    parent: i64,
    phase: WalkPhase,
    pending: i64,
}

impl View for PathWalk {
    type V = WalkState;

    closed spec fn view(&self) -> WalkState {
        WalkState {
            bucket_id: self.bucket_id,
            segments: texts(self.segments@),
            index: self.index as int,
            prefix: self.prefix@,
            parent: self.parent,
            phase: self.phase,
            pending: self.pending,
        }
    }
}

impl PathWalk {
    /// Starts to resolve `full_path` in a bucket. The path is cut at every
    /// `/`; the first request asks the cache for the first component.
    pub fn start(bucket_id: i64, full_path: &str) -> (out: (PathWalk, PathRequest))
        ensures
            (out.0@, out.1@) == walk_start(bucket_id, full_path@),
            out.0@.well_formed(),
    {
        proof {
            lemma_start_well_formed(bucket_id, full_path@);
        }
        let segments = split_on(full_path, '/');
        let prefix = segments[0].clone();
        let request = PathRequest::CacheGet { bucket_id, full_path: segments[0].clone() };
        proof {
            assert(texts(segments@)[0] == segments@[0]@);
        }
        (
            PathWalk {
                bucket_id,
                segments,
                index: 0,
                prefix,
                parent: 0,
                phase: WalkPhase::CacheLookup,
                pending: 0,
            },
            request,
        )
    }

    /// What the walk waits for.
    pub fn phase(&self) -> (p: WalkPhase)
        ensures
            p == self@.phase,
    {
        self.phase
    }

    fn advance(self, id: i64) -> (out: (PathWalk, PathRequest))
        ensures
            (out.0@, out.1@) == self@.advance(id),
    {
        if self.segments.len() > 0 && self.index < self.segments.len() - 1 {
            let next = self.index + 1;
            let prefix = if self.prefix.as_str().unicode_len() == 0 {
                self.segments[next].clone()
            } else {
                concat_with(self.prefix.as_str(), '/', self.segments[next].as_str())
            };
            proof {
                assert(texts(self.segments@)[next as int] == self.segments@[next as int]@);
            }
            let request = PathRequest::CacheGet {
                bucket_id: self.bucket_id,
                full_path: prefix.clone(),
            };
            (
                PathWalk {
                    bucket_id: self.bucket_id,
                    segments: self.segments,
                    index: next,
                    prefix,
                    parent: id,
                    phase: WalkPhase::CacheLookup,
                    pending: 0,
                },
                request,
            )
        } else {
            (
                PathWalk {
                    bucket_id: self.bucket_id,
                    segments: self.segments,
                    index: self.index,
                    prefix: self.prefix,
                    parent: id,
                    phase: WalkPhase::Done,
                    pending: 0,
                },
                PathRequest::Done { id },
            )
        }
    }

    fn with_phase(self, phase: WalkPhase, pending: i64) -> (out: PathWalk)
        ensures
            out@ == (WalkState { phase, pending, ..self@ }),
    {
        PathWalk {
            bucket_id: self.bucket_id,
            segments: self.segments,
            index: self.index,
            prefix: self.prefix,
            parent: self.parent,
            phase,
            pending,
        }
    }

    /// Takes the answer to the last request and says what to do next.
    /// `fresh_id` is the id a directory gets if this step decides to
    /// create one, `now` the creation time to record for it.
    pub fn step(self, response: PathResponse, fresh_id: i64, now: &str) -> (out: (
        PathWalk,
        PathRequest,
    ))
        ensures
            (out.0@, out.1@) == self@.step(response, fresh_id, now@),
            self@.well_formed() ==> out.0@.well_formed(),
    {
        proof {
            if self@.well_formed() {
                lemma_step_well_formed(self@, response, fresh_id, now@);
            }
        }
        let bucket_id = self.bucket_id;
        match (self.phase, response) {
            (WalkPhase::CacheLookup, PathResponse::CacheHit(id)) => self.advance(id),
            (WalkPhase::CacheLookup, PathResponse::CacheMiss) => {
                let full_path = self.prefix.clone();
                let pending = self.pending;
                (
                    self.with_phase(WalkPhase::CatalogLookup, pending),
                    PathRequest::CatalogFind { bucket_id, full_path },
                )
            },
            (WalkPhase::CatalogLookup, PathResponse::Found(id)) => {
                let full_path = self.prefix.clone();
                (
                    self.with_phase(WalkPhase::Caching, id),
                    PathRequest::CachePut { bucket_id, full_path, id },
                )
            },
            (WalkPhase::CatalogLookup, PathResponse::NotFound) => {
                let path = if self.index < self.segments.len() {
                    proof {
                        assert(texts(self.segments@)[self.index as int]
                            == self.segments@[self.index as int]@);
                    }
                    self.segments[self.index].clone()
                } else {
                    String::new()
                };
                let node = PathInfo {
                    id: fresh_id,
                    bucket_id,
                    root: self.parent == 0,
                    path,
                    parent: self.parent,
                    full_path: self.prefix.clone(),
                    create_time: String::from_str(now),
                };
                (
                    self.with_phase(WalkPhase::Creating, fresh_id),
                    PathRequest::CatalogInsert { node },
                )
            },
            (WalkPhase::Creating, PathResponse::Inserted) => {
                let full_path = self.prefix.clone();
                let id = self.pending;
                (
                    self.with_phase(WalkPhase::Caching, id),
                    PathRequest::CachePut { bucket_id, full_path, id },
                )
            },
            (WalkPhase::Creating, PathResponse::Conflict) => {
                let full_path = self.prefix.clone();
                (
                    self.with_phase(WalkPhase::CatalogLookup, 0),
                    PathRequest::CatalogFind { bucket_id, full_path },
                )
            },
            (WalkPhase::Caching, PathResponse::Stored) => {
                let id = self.pending;
                self.advance(id)
            },
            _ => {
                let pending = self.pending;
                (self.with_phase(WalkPhase::Failed, pending), PathRequest::Failed)
            },
        }
    }
}

/// The record of a directory created directly under a known parent, or at
/// the top of the bucket where `parent` is `None`: its full path is the
/// parent's full path, `/`, and the new name; at the top it is the name.
pub open spec fn child_node(
    parent: Option<PathNode>,
    segment: Seq<char>,
    bucket_id: i64,
    id: i64,
    now: Seq<char>,
) -> PathNode {
    match parent {
        Some(p) => PathNode {
            id,
            bucket_id,
            root: false,
            path: segment,
            parent: p.id,
            full_path: p.full_path.push('/') + segment,
            create_time: now,
        },
        None => PathNode {
            id,
            bucket_id,
            root: true,
            path: segment,
            parent: 0,
            full_path: segment,
            create_time: now,
        },
    }
}

/// Makes the record of a new directory under a parent that the caller
/// already holds, without walking the path.
pub fn new_path(parent: Option<&PathInfo>, segment: &str, bucket_id: i64, id: i64, now: &str) -> (node:
    PathInfo)
    ensures
        node@ == child_node(
            match parent {
                Some(p) => Some(p@),
                None => None,
            },
            segment@,
            bucket_id,
            id,
            now@,
        ),
{
    match parent {
        Some(p) => PathInfo {
            id,
            bucket_id,
            root: false,
            path: String::from_str(segment),
            parent: p.id,
            full_path: concat_with(p.full_path.as_str(), '/', segment),
            create_time: String::from_str(now),
        },
        None => PathInfo {
            id,
            bucket_id,
            root: true,
            path: String::from_str(segment),
            parent: 0,
            full_path: String::from_str(segment),
            create_time: String::from_str(now),
        },
    }
}

} // verus!
