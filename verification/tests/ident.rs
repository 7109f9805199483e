use file_cloud::ident::{
    build_id, build_md5, build_snow_id, compose_uuid, digest_matches, generate_uuid,
    password_matches, SafeSnowflake,
};

#[test]
fn chunk_ids_are_32_lowercase_hex_digits() {
    let a = build_id();
    let b = build_id();
    assert_eq!(a.len(), 32);
    assert!(a.chars().all(|c| c.is_ascii_digit() || ('a'..='f').contains(&c)));
    assert_ne!(a, b);
}

#[test]
fn md5_of_known_texts() {
    assert_eq!(build_md5(""), "d41d8cd98f00b204e9800998ecf8427e");
    assert_eq!(build_md5("abc"), "900150983cd24fb0d6963f7d28e17f72");
    assert_eq!(build_md5("The quick brown fox jumps over the lazy dog"), "9e107d9d372bb6826bd81d3542a419d6");
    assert_eq!(build_md5("123456"), "e10adc3949ba59abbe56e057f20f883e");
}

#[test]
fn passwords_are_checked_by_digest() {
    assert!(password_matches("e10adc3949ba59abbe56e057f20f883e", "123456"));
    assert!(!password_matches("e10adc3949ba59abbe56e057f20f883e", "1234567"));
    assert!(!password_matches("123456", "123456"));
    assert!(digest_matches("abc", "abc"));
    assert!(!digest_matches("abc", "ABC"));
}

#[test]
fn snowflake_layout() {
    let mut g = SafeSnowflake::new(1, 1);
    let id = g.issue(1000).unwrap();
    assert_eq!(id, (1000 << 12) | (1 << 7) | (1 << 2));
    let mut g = SafeSnowflake::new(3, 5);
    assert_eq!(g.issue(1).unwrap(), (1 << 12) | (3 << 7) | (5 << 2));
    let mut g = SafeSnowflake::new(0x3F, 0x21);
    assert_eq!(g.issue(2).unwrap(), (2 << 12) | (0x1F << 7) | (1 << 2));
    let mut g = SafeSnowflake::new(0, 0);
    assert_eq!(g.issue(u64::MAX).unwrap(), 0x1FFFFFFFFFF << 12);
}

#[test]
fn snowflake_counts_within_a_millisecond_and_then_waits() {
    let mut g = SafeSnowflake::new(1, 1);
    let base = (5u64 << 12) | (1 << 7) | (1 << 2);
    assert_eq!(g.issue(5), Some(base));
    assert_eq!(g.issue(5), Some(base + 1));
    assert_eq!(g.issue(5), Some(base + 2));
    assert_eq!(g.issue(5), Some(base + 3));
    assert_eq!(g.issue(5), None);
    assert_eq!(g.issue(5), None);
    assert_eq!(g.issue(6), Some((6u64 << 12) | (1 << 7) | (1 << 2)));
    assert_eq!(g.issue(6), Some(((6u64 << 12) | (1 << 7) | (1 << 2)) + 1));
    assert_eq!(g.issue(4), Some((4u64 << 12) | (1 << 7) | (1 << 2)));
}

#[test]
fn snowflake_at_the_start_of_time() {
    let mut g = SafeSnowflake::new(1, 1);
    assert_eq!(g.issue(0), Some((1 << 7) | (1 << 2) | 1));
}

#[test]
fn generated_ids_are_distinct_and_small() {
    let mut g = SafeSnowflake::new(1, 1);
    let mut ids = Vec::new();
    for _ in 0..50 {
        ids.push(g.generate());
    }
    for i in 0..ids.len() {
        assert!(ids[i] < (1u64 << 53));
        assert_eq!((ids[i] >> 7) & 0x1F, 1);
        assert_eq!((ids[i] >> 2) & 0x1F, 1);
        for j in (i + 1)..ids.len() {
            assert_ne!(ids[i], ids[j]);
        }
        if i > 0 {
            assert!(ids[i] > ids[i - 1]);
        }
    }
}

#[test]
fn record_ids_carry_the_present_time() {
    let id = build_snow_id();
    assert!(id > 0);
    assert!(id < (1i64 << 53));
    assert_eq!(id & 0xFFF, (1 << 7) | (1 << 2));
    let millis = id >> 12;
    assert!(millis > 1_600_000_000_000);
}

#[test]
fn uuid_of_time_and_random_part() {
    assert_eq!(compose_uuid(1700000000123456789, "abcd0123"), "1700000000123456789abcd0123");
    assert_eq!(compose_uuid(0, ""), "0");
    let id = generate_uuid();
    assert!(id.len() > 8);
    let (time, random) = id.split_at(id.len() - 8);
    assert!(time.chars().all(|c| c.is_ascii_digit()));
    assert!(time.parse::<i64>().unwrap() > 1_600_000_000_000_000_000);
    assert!(random.chars().all(|c| c.is_ascii_digit() || c.is_ascii_lowercase()));
    assert_ne!(generate_uuid(), generate_uuid());
}
