use file_cloud::models::PathInfo;
use file_cloud::path::{new_path, PathRequest, PathResponse, PathWalk, WalkPhase};
use std::collections::HashMap;

struct World {
    nodes: Vec<PathInfo>,
    cache: HashMap<(i64, String), i64>,
    next_id: i64,
    cache_gets: usize,
    catalog_finds: usize,
}

fn world() -> World {
    World { nodes: Vec::new(), cache: HashMap::new(), next_id: 1, cache_gets: 0, catalog_finds: 0 }
}

fn find(world: &World, bucket_id: i64, full_path: &str) -> Option<i64> {
    world
        .nodes
        .iter()
        .find(|n| n.bucket_id == bucket_id && n.full_path == full_path)
        .map(|n| n.id)
}

fn resolve(world: &mut World, bucket_id: i64, full_path: &str) -> i64 {
    let (mut walk, mut request) = PathWalk::start(bucket_id, full_path);
    for _ in 0..1000 {
        let response = match request {
            PathRequest::CacheGet { bucket_id, full_path } => {
                world.cache_gets += 1;
                match world.cache.get(&(bucket_id, full_path)) {
                    Some(id) => PathResponse::CacheHit(*id),
                    None => PathResponse::CacheMiss,
                }
            }
            PathRequest::CatalogFind { bucket_id, full_path } => {
                world.catalog_finds += 1;
                match find(world, bucket_id, &full_path) {
                    Some(id) => PathResponse::Found(id),
                    None => PathResponse::NotFound,
                }
            }
            PathRequest::CatalogInsert { node } => {
                if find(world, node.bucket_id, &node.full_path).is_some() {
                    PathResponse::Conflict
                } else {
                    world.nodes.push(node);
                    PathResponse::Inserted
                }
            }
            PathRequest::CachePut { bucket_id, full_path, id } => {
                world.cache.insert((bucket_id, full_path), id);
                PathResponse::Stored
            }
            PathRequest::Done { id } => {
                assert_eq!(walk.phase(), WalkPhase::Done);
                return id;
            }
            PathRequest::Failed => panic!("walk failed"),
        };
        let fresh = world.next_id;
        world.next_id += 1;
        let stepped = walk.step(response, fresh, "2025-01-01 00:00:00");
        walk = stepped.0;
        request = stepped.1;
    }
    panic!("walk did not end");
}

#[test]
fn path_idempotence() {
    let mut w = world();
    let first = resolve(&mut w, 1, "a/b/c");
    assert_eq!(w.nodes.len(), 3);
    let second = resolve(&mut w, 1, "a/b/c");
    assert_eq!(first, second);
    assert_eq!(w.nodes.len(), 3);
}

#[test]
fn path_idempotence_with_an_empty_cache() {
    let mut w = world();
    let first = resolve(&mut w, 1, "a/b/c");
    w.cache.clear();
    let finds_before = w.catalog_finds;
    let second = resolve(&mut w, 1, "a/b/c");
    assert_eq!(first, second);
    assert_eq!(w.nodes.len(), 3);
    assert_eq!(w.catalog_finds, finds_before + 3);
    assert_eq!(w.cache.len(), 3);
}

#[test]
fn cached_prefixes_are_not_asked_of_the_catalog() {
    let mut w = world();
    resolve(&mut w, 1, "a/b");
    let finds_before = w.catalog_finds;
    resolve(&mut w, 1, "a/b/c");
    assert_eq!(w.catalog_finds, finds_before + 1);
    assert_eq!(w.nodes.len(), 3);
}

#[test]
fn created_nodes_form_a_chain() {
    let mut w = world();
    let id = resolve(&mut w, 9, "docs/reports/2024");
    assert_eq!(w.nodes.len(), 3);
    let docs = &w.nodes[0];
    let reports = &w.nodes[1];
    let year = &w.nodes[2];
    assert_eq!(docs.full_path, "docs");
    assert_eq!(docs.path, "docs");
    assert!(docs.root);
    assert_eq!(docs.parent, 0);
    assert_eq!(reports.full_path, "docs/reports");
    assert_eq!(reports.path, "reports");
    assert!(!reports.root);
    assert_eq!(reports.parent, docs.id);
    assert_eq!(year.full_path, "docs/reports/2024");
    assert_eq!(year.path, "2024");
    assert_eq!(year.parent, reports.id);
    assert_eq!(year.id, id);
    for node in &w.nodes {
        assert_eq!(node.bucket_id, 9);
        assert_eq!(node.root, node.parent == 0);
        assert_eq!(node.create_time, "2025-01-01 00:00:00");
    }
}

#[test]
fn buckets_do_not_share_paths() {
    let mut w = world();
    let in_one = resolve(&mut w, 1, "a/b");
    let in_two = resolve(&mut w, 2, "a/b");
    assert_ne!(in_one, in_two);
    assert_eq!(w.nodes.len(), 4);
    assert_eq!(resolve(&mut w, 1, "a/b"), in_one);
    assert_eq!(resolve(&mut w, 2, "a/b"), in_two);
    assert_eq!(w.nodes.len(), 4);
}

#[test]
fn single_component() {
    let mut w = world();
    let id = resolve(&mut w, 1, "top");
    assert_eq!(w.nodes.len(), 1);
    assert!(w.nodes[0].root);
    assert_eq!(w.nodes[0].id, id);
}

#[test]
fn conflict_on_create_fetches_the_existing_node() {
    let (walk, request) = PathWalk::start(4, "x");
    assert!(matches!(request, PathRequest::CacheGet { bucket_id: 4, ref full_path } if full_path == "x"));
    let (walk, request) = walk.step(PathResponse::CacheMiss, 10, "t");
    assert!(matches!(request, PathRequest::CatalogFind { bucket_id: 4, ref full_path } if full_path == "x"));
    let (walk, request) = walk.step(PathResponse::NotFound, 11, "t");
    match request {
        PathRequest::CatalogInsert { node } => {
            assert_eq!(node.id, 11);
            assert_eq!(node.full_path, "x");
            assert!(node.root);
        }
        other => panic!("unexpected {:?}", other),
    }
    assert_eq!(walk.phase(), WalkPhase::Creating);
    let (walk, request) = walk.step(PathResponse::Conflict, 12, "t");
    assert!(matches!(request, PathRequest::CatalogFind { bucket_id: 4, ref full_path } if full_path == "x"));
    let (walk, request) = walk.step(PathResponse::Found(77), 13, "t");
    assert!(matches!(request, PathRequest::CachePut { bucket_id: 4, id: 77, ref full_path } if full_path == "x"));
    let (walk, request) = walk.step(PathResponse::Stored, 14, "t");
    assert!(matches!(request, PathRequest::Done { id: 77 }));
    assert_eq!(walk.phase(), WalkPhase::Done);
}

#[test]
fn an_answer_that_was_not_asked_for_fails_the_walk() {
    let (walk, _) = PathWalk::start(4, "x/y");
    let (walk, request) = walk.step(PathResponse::Stored, 1, "t");
    assert!(matches!(request, PathRequest::Failed));
    assert_eq!(walk.phase(), WalkPhase::Failed);
    let (walk, request) = walk.step(PathResponse::CacheMiss, 2, "t");
    assert!(matches!(request, PathRequest::Failed));
    assert_eq!(walk.phase(), WalkPhase::Failed);
}

#[test]
fn new_path_under_a_parent_and_at_the_top() {
    let parent = PathInfo {
        id: 40,
        bucket_id: 2,
        root: true,
        path: "docs".to_string(),
        parent: 0,
        full_path: "docs".to_string(),
        create_time: "t0".to_string(),
    };
    let child = new_path(Some(&parent), "reports", 2, 41, "t1");
    assert_eq!(child.id, 41);
    assert_eq!(child.bucket_id, 2);
    assert!(!child.root);
    assert_eq!(child.parent, 40);
    assert_eq!(child.path, "reports");
    assert_eq!(child.full_path, "docs/reports");
    assert_eq!(child.create_time, "t1");

    let top = new_path(None, "media", 2, 42, "t2");
    assert!(top.root);
    assert_eq!(top.parent, 0);
    assert_eq!(top.full_path, "media");
    assert_eq!(top.path, "media");
}
