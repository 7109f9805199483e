use file_cloud::catalog::{
    is_bucket_root, items_size, list_under_path, next_cursor, record_file, size_under_prefix,
    validate_file_name, validate_virtual_path,
};
use file_cloud::chunk::FileItemDto;
use file_cloud::errors::AppError;
use file_cloud::models::{FileInfo, FileType, ImageType};

fn file(id: i64, bucket_id: i64, path_ref: i64, dir: &str, name: &str, size: u64) -> FileInfo {
    let items = if size == 0 {
        Vec::new()
    } else {
        vec![FileItemDto { path: format!("/data/{}", id), size: size as u32 }]
    };
    record_file(bucket_id, path_ref, dir, name, FileType::get_file_type(name), items, size, id, "now")
        .unwrap()
}

fn ids(files: &Vec<FileInfo>) -> Vec<i64> {
    files.iter().map(|f| f.id).collect()
}

#[test]
fn size_aggregation() {
    let files = vec![
        file(1, 1, 10, "/docs/reports", "a.txt", 100),
        file(2, 1, 10, "/docs/reports", "b.txt", 200),
        file(3, 1, 10, "/docs/reports", "c.txt", 300),
    ];
    assert_eq!(files[0].full_path, "/docs/reports/a.txt");
    assert_eq!(size_under_prefix(&files, "/docs/").unwrap(), 600);
    assert_eq!(size_under_prefix(&files, "/media/").unwrap(), 0);
    assert_eq!(size_under_prefix(&files, "/docs/reports/").unwrap(), 600);
    assert_eq!(size_under_prefix(&files, "/docs/reports/b").unwrap(), 200);
    assert_eq!(size_under_prefix(&files, "").unwrap(), 600);
    assert_eq!(size_under_prefix(&Vec::new(), "/docs/").unwrap(), 0);
}

#[test]
fn size_aggregation_that_leaves_64_bits() {
    let mut big = file(1, 1, 0, "", "a", 1);
    big.size = u64::MAX;
    let files = vec![big, file(2, 1, 0, "", "b", 1)];
    assert!(matches!(size_under_prefix(&files, ""), Err(AppError::InternalError(_))));
    assert_eq!(size_under_prefix(&files, "b").unwrap(), 1);
}

#[test]
fn record_of_an_image_at_the_top_of_a_bucket() {
    let items = vec![
        FileItemDto { path: "/r/2025/1/0/aa".to_string(), size: 4194304 },
        FileItemDto { path: "/r/2025/1/0/bb".to_string(), size: 10 },
    ];
    let record =
        record_file(3, 0, "", "Photo.PNG", FileType::IMAGE, items, 4194314, 99, "2025-01-01 10:00:00")
            .unwrap();
    assert_eq!(record.id, 99);
    assert!(record.root);
    assert_eq!(record.bucket_id, 3);
    assert_eq!(record.path_ref, 0);
    assert_eq!(record.name, "Photo.PNG");
    assert_eq!(record.full_path, "Photo.PNG");
    assert_eq!(record.file_type, FileType::IMAGE);
    assert_eq!(record.image_type, ImageType::PNG);
    assert_eq!(record.size, 4194314);
    assert_eq!(record.items.len(), 2);
    assert_eq!(record.items[1].path, "/r/2025/1/0/bb");
    assert_eq!(record.create_time, "2025-01-01 10:00:00");
}

#[test]
fn record_in_a_directory_has_no_image_type_unless_an_image() {
    let record = record_file(3, 12, "docs", "notes.png.txt", FileType::TEXT, Vec::new(), 0, 5, "t")
        .unwrap();
    assert!(!record.root);
    assert_eq!(record.full_path, "docs/notes.png.txt");
    assert_eq!(record.image_type, ImageType::NONE);
    assert_eq!(record.size, 0);
    assert!(record.items.is_empty());

    let odd = record_file(3, 12, "docs", "picture.bin", FileType::IMAGE, Vec::new(), 0, 6, "t").unwrap();
    assert_eq!(odd.image_type, ImageType::NONE);
    let text = record_file(3, 12, "docs", "a.jpg", FileType::TEXT, Vec::new(), 0, 7, "t").unwrap();
    assert_eq!(text.image_type, ImageType::NONE);
}

#[test]
fn record_is_refused_for_a_bad_name_or_size() {
    let long = "x".repeat(65);
    assert!(matches!(
        record_file(1, 0, "", &long, FileType::NORMAL, Vec::new(), 0, 1, "t"),
        Err(AppError::InvalidInput(_))
    ));
    assert!(matches!(
        record_file(1, 0, "", "", FileType::NORMAL, Vec::new(), 0, 1, "t"),
        Err(AppError::InvalidInput(_))
    ));
    let items = vec![FileItemDto { path: "p".to_string(), size: 5 }];
    assert!(matches!(
        record_file(1, 0, "", "a", FileType::NORMAL, items, 6, 1, "t"),
        Err(AppError::InvalidInput(_))
    ));
    let ok = "x".repeat(64);
    assert!(record_file(1, 0, "", &ok, FileType::NORMAL, Vec::new(), 0, 1, "t").is_ok());
}

#[test]
fn name_and_path_limits() {
    assert!(validate_file_name("a").is_ok());
    assert!(validate_file_name(&"a".repeat(64)).is_ok());
    assert!(matches!(validate_file_name(&"a".repeat(65)), Err(AppError::InvalidInput(_))));
    assert!(matches!(validate_file_name(""), Err(AppError::InvalidInput(_))));
    assert!(validate_file_name(&"é".repeat(32)).is_ok());
    assert!(validate_file_name(&"é".repeat(33)).is_err());
    assert!(validate_virtual_path("").is_ok());
    assert!(validate_virtual_path(&"p".repeat(128)).is_ok());
    assert!(matches!(validate_virtual_path(&"p".repeat(129)), Err(AppError::InvalidInput(_))));
}

#[test]
fn bucket_root_as_text() {
    assert!(is_bucket_root(""));
    assert!(is_bucket_root("/"));
    assert!(!is_bucket_root("a"));
    assert!(!is_bucket_root("//"));
    assert!(!is_bucket_root("/a"));
}

#[test]
fn sizes_of_chunk_lists() {
    assert_eq!(items_size(&Vec::new()), Some(0));
    let items = vec![
        FileItemDto { path: "a".to_string(), size: 4194304 },
        FileItemDto { path: "b".to_string(), size: 4194304 },
        FileItemDto { path: "c".to_string(), size: 1 },
    ];
    assert_eq!(items_size(&items), Some(8388609));
}

#[test]
fn keyset_pagination_visits_every_file_once() {
    let mut files = Vec::new();
    for id in 1..=10 {
        let dir = if id % 2 == 0 { "docs/even" } else { "docs/odd" };
        files.push(file(id, 1, 7, dir, &format!("f{}.txt", id), id as u64));
    }
    files.push(file(11, 2, 7, "docs/odd", "other-bucket.txt", 1));
    files.push(file(12, 1, 8, "media", "clip.mp4", 1));

    let mut seen = Vec::new();
    let mut after = 0;
    let mut pages = 0;
    loop {
        let page = list_under_path(&files, "docs/", after, 1, 3);
        assert!(page.len() <= 3);
        match next_cursor(&page) {
            Some(id) => after = id,
            None => break,
        }
        seen.extend(ids(&page));
        pages += 1;
    }
    assert_eq!(seen, vec![1, 2, 3, 4, 5, 6, 7, 8, 9, 10]);
    assert_eq!(pages, 4);

    assert_eq!(ids(&list_under_path(&files, "docs/odd/", 0, 1, 100)), vec![1, 3, 5, 7, 9]);
    assert_eq!(ids(&list_under_path(&files, "docs/odd/", 5, 1, 100)), vec![7, 9]);
    assert_eq!(ids(&list_under_path(&files, "docs/", 0, 2, 100)), vec![11]);
    assert!(list_under_path(&files, "docs/", 0, 1, 0).is_empty());
    assert!(list_under_path(&files, "nothing/", 0, 1, 10).is_empty());
    assert_eq!(next_cursor(&Vec::new()), None);
}

#[test]
fn the_file_table_keeps_its_records_in_order_of_id() {
    let mut table = file_cloud::catalog::FileTable::new();
    for id in [5, 1, 9, 3, 7] {
        assert!(table.insert(file(id, 1, 7, "docs", &format!("f{}", id), 1)));
    }
    assert!(!table.insert(file(3, 1, 7, "docs", "again", 1)));
    assert_eq!(table.len(), 5);
    assert_eq!(ids(table.files()), vec![1, 3, 5, 7, 9]);
}

#[test]
fn collecting_page_by_page_gives_the_whole_listing() {
    let mut table = file_cloud::catalog::FileTable::new();
    for id in (1..=25).rev() {
        let dir = if id % 3 == 0 { "media" } else { "docs/sub" };
        table.insert(file(id, 1, 7, dir, &format!("f{}", id), 1));
    }
    let expected: Vec<i64> = (1..=25).filter(|id| id % 3 != 0).collect();
    for page_size in [0, 1, 2, 7, 100] {
        let all = table.collect_under_path("docs/", 0, 1, page_size);
        assert_eq!(ids(&all), expected);
    }
    let later = table.collect_under_path("docs/", 10, 1, 4);
    let expected_later: Vec<i64> = (11..=25).filter(|id| id % 3 != 0).collect();
    assert_eq!(ids(&later), expected_later);
    assert!(table.collect_under_path("docs/", 0, 2, 4).is_empty());
}
