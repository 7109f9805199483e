use file_cloud::shard::{
    build_time, chunk_path, ClockReading, ShardKey, ShardPhase, ShardRequest, ShardResponse,
    ShardWalk, SHARD_CACHE_TTL_SECS,
};
use std::collections::BTreeSet;

fn key() -> ShardKey {
    ShardKey::from_reading(ClockReading { year: 2025, day_of_year: 60, hour: 17, minute: 45 })
}

#[test]
fn minute_of_day_is_sixty_times_hour_plus_minute() {
    assert_eq!(key().minute_of_day, 1065);
    assert_eq!(key().year, 2025);
    assert_eq!(key().day_of_year, 60);
    let midnight = ShardKey::from_reading(ClockReading { year: 2024, day_of_year: 1, hour: 0, minute: 0 });
    assert_eq!(midnight.minute_of_day, 0);
    let last = ShardKey::from_reading(ClockReading { year: 2024, day_of_year: 366, hour: 23, minute: 59 });
    assert_eq!(last.minute_of_day, 1439);
    let odd = ShardKey::from_reading(ClockReading {
        year: 1,
        day_of_year: 1,
        hour: u32::MAX,
        minute: u32::MAX,
    });
    assert_eq!(odd.minute_of_day, u32::MAX as u64 * 61);
}

#[test]
fn the_present_shard_is_in_range() {
    let now = ShardKey::now();
    assert!(now.year >= 2024);
    assert!(now.day_of_year >= 1 && now.day_of_year <= 366);
    assert!(now.minute_of_day < 1440);
}

#[test]
fn recorded_time_has_the_catalog_format() {
    let text = build_time();
    let bytes = text.as_bytes();
    assert_eq!(bytes.len(), 19);
    assert!(text[..4].parse::<i32>().unwrap() >= 2024);
    assert!(text[5..7].parse::<u32>().unwrap() <= 12);
    assert!(text[8..10].parse::<u32>().unwrap() <= 31);
    assert!(text[11..13].parse::<u32>().unwrap() <= 23);
    assert!(text[14..16].parse::<u32>().unwrap() <= 59);
    assert!(text[17..19].parse::<u32>().unwrap() <= 60);
    assert_eq!(bytes[4], b'-');
    assert_eq!(bytes[7], b'-');
    assert_eq!(bytes[10], b' ');
    assert_eq!(bytes[13], b':');
    assert_eq!(bytes[16], b':');
}

fn secure(root: &str, cache: &mut BTreeSet<String>, disk: &mut BTreeSet<String>) -> (String, usize) {
    let (mut walk, mut request) = ShardWalk::start(root, key());
    let mut made = 0;
    for _ in 0..20 {
        let response = match request {
            ShardRequest::CacheGet { path } => {
                if cache.contains(&path) {
                    ShardResponse::Cached
                } else {
                    ShardResponse::NotCached
                }
            }
            ShardRequest::EnsureDir { path } => {
                if disk.insert(path.clone()) {
                    made += 1;
                }
                cache.insert(path);
                ShardResponse::Ensured
            }
            ShardRequest::Done { path } => return (path, made),
            ShardRequest::Failed => panic!("walk failed"),
        };
        let stepped = walk.step(response);
        walk = stepped.0;
        request = stepped.1;
    }
    panic!("walk did not end");
}

#[test]
fn shard_directories_are_nested_by_year_day_and_minute() {
    let mut cache = BTreeSet::new();
    let mut disk = BTreeSet::new();
    let (dir, made) = secure("/data", &mut cache, &mut disk);
    assert_eq!(dir, "/data/2025/60/1065");
    assert_eq!(made, 3);
    let expected: BTreeSet<String> =
        ["/data/2025", "/data/2025/60", "/data/2025/60/1065"].iter().map(|s| s.to_string()).collect();
    assert_eq!(disk, expected);
    assert_eq!(cache, expected);
}

#[test]
fn cached_directories_are_not_made_again() {
    let mut cache = BTreeSet::new();
    let mut disk = BTreeSet::new();
    secure("/data", &mut cache, &mut disk);
    let (dir, made) = secure("/data", &mut cache, &mut disk);
    assert_eq!(dir, "/data/2025/60/1065");
    assert_eq!(made, 0);

    cache.remove("/data/2025/60");
    let (_, made) = secure("/data", &mut cache, &mut disk);
    assert_eq!(made, 0);
    assert!(cache.contains("/data/2025/60"));

    disk.clear();
    cache.remove("/data/2025/60/1065");
    let (_, made) = secure("/data", &mut cache, &mut disk);
    assert_eq!(made, 1);
}

#[test]
fn shard_walk_step_by_step() {
    let (walk, request) = ShardWalk::start("r", key());
    assert!(matches!(request, ShardRequest::CacheGet { ref path } if path == "r/2025"));
    let (walk, request) = walk.step(ShardResponse::Cached);
    assert!(matches!(request, ShardRequest::CacheGet { ref path } if path == "r/2025/60"));
    let (walk, request) = walk.step(ShardResponse::NotCached);
    assert!(matches!(request, ShardRequest::EnsureDir { ref path } if path == "r/2025/60"));
    let (walk, request) = walk.step(ShardResponse::Ensured);
    assert!(matches!(request, ShardRequest::CacheGet { ref path } if path == "r/2025/60/1065"));
    let (walk, request) = walk.step(ShardResponse::Cached);
    assert!(matches!(request, ShardRequest::Done { ref path } if path == "r/2025/60/1065"));
    let (_, request) = walk.step(ShardResponse::Cached);
    assert!(matches!(request, ShardRequest::Failed));

    let (walk, _) = ShardWalk::start("r", key());
    let (_, request) = walk.step(ShardResponse::Ensured);
    assert!(matches!(request, ShardRequest::Failed));
}

#[test]
fn negative_years_keep_their_sign() {
    let early = ShardKey::from_reading(ClockReading { year: -44, day_of_year: 74, hour: 12, minute: 0 });
    let (_, request) = ShardWalk::start("/r", early);
    assert!(matches!(request, ShardRequest::CacheGet { ref path } if path == "/r/-44"));
}

#[test]
fn chunk_files_lie_in_the_shard_directory() {
    assert_eq!(chunk_path("/data/2025/60/1065", "0123abcd"), "/data/2025/60/1065/0123abcd");
    assert_eq!(SHARD_CACHE_TTL_SECS, 24 * 60 * 60);
    let _ = ShardPhase::Done;
}
