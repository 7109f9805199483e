use file_cloud::catalog::record_file;
use file_cloud::listing::{
    delete_task, dir_result, file_result, names_directory, PathQuery, QueryDataType,
};
use file_cloud::models::{FileType, ImageType, PathInfo};
use file_cloud::query::{build_where_clause, QueryParam, QueryType};

fn query(path_id: i64, query_type: QueryDataType, key: Option<&str>) -> PathQuery {
    PathQuery {
        path_id,
        bucket_id: 3,
        page_size: 10,
        query_type,
        search_key: key.map(|k| k.to_string()),
        max_id: 500,
    }
}

fn shape(params: &Vec<QueryParam>) -> Vec<(String, QueryType, Vec<String>)> {
    params.iter().map(|p| (p.field.clone(), p.query_type, p.values.clone())).collect()
}

fn cond(field: &str, t: QueryType, value: &str) -> (String, QueryType, Vec<String>) {
    (field.to_string(), t, vec![value.to_string()])
}

#[test]
fn conditions_at_the_top_of_a_bucket() {
    let q = query(0, QueryDataType::DIR, None);
    assert_eq!(
        shape(&q.dir_params()),
        vec![
            cond("root", QueryType::Equal, "1"),
            cond("bucket_id", QueryType::Equal, "3"),
            cond("parent", QueryType::Equal, "0"),
        ]
    );
    assert_eq!(
        shape(&q.file_params()),
        vec![
            cond("root", QueryType::Equal, "1"),
            cond("bucket_id", QueryType::Equal, "3"),
            cond("path_ref", QueryType::Equal, "0"),
        ]
    );
}

#[test]
fn conditions_in_a_directory_with_a_search_key() {
    let q = query(42, QueryDataType::FILE, Some("rep"));
    assert_eq!(
        shape(&q.dir_params()),
        vec![
            cond("bucket_id", QueryType::Equal, "3"),
            cond("path", QueryType::LikeEnd, "rep"),
            cond("parent", QueryType::Equal, "42"),
        ]
    );
    assert_eq!(
        shape(&q.file_params()),
        vec![
            cond("bucket_id", QueryType::Equal, "3"),
            cond("path_ref", QueryType::Equal, "42"),
            cond("name", QueryType::LikeEnd, "rep"),
        ]
    );
    let (sql, values) = build_where_clause(&q.file_params());
    assert_eq!(sql, " WHERE bucket_id = ? AND path_ref = ? AND name LIKE ?");
    assert_eq!(values, vec!["3", "42", "rep%"]);
}

#[test]
fn files_fill_what_directories_leave_of_the_page() {
    let q = query(0, QueryDataType::DIR, None);
    assert!(q.lists_dirs());
    assert_eq!(q.file_cursor(), 0);
    assert_eq!(q.file_limit(0), Some(10));
    assert_eq!(q.file_limit(4), Some(6));
    assert_eq!(q.file_limit(9), Some(1));
    assert_eq!(q.file_limit(10), None);
    assert_eq!(q.file_limit(11), None);
    let q = query(0, QueryDataType::FILE, None);
    assert!(!q.lists_dirs());
    assert_eq!(q.file_cursor(), 500);
    let mut none = query(0, QueryDataType::FILE, None);
    none.page_size = 0;
    assert_eq!(none.file_limit(0), None);
    none.page_size = -3;
    assert_eq!(none.file_limit(0), None);
}

#[test]
fn lines_of_a_listing() {
    let dir = PathInfo {
        id: 9,
        bucket_id: 3,
        root: true,
        path: "docs".to_string(),
        parent: 0,
        full_path: "docs".to_string(),
        create_time: "t0".to_string(),
    };
    let line = dir_result(&dir, 600);
    assert_eq!(line.id, 9);
    assert_eq!(line.file_name, "docs");
    assert_eq!(line.file_type, FileType::DIR);
    assert_eq!(line.bucket_id, 3);
    assert_eq!(line.size, 600);
    assert_eq!(line.image_type, ImageType::NONE);
    assert_eq!(line.create_time, "t0");

    let file = record_file(3, 9, "docs", "a.png", FileType::IMAGE, Vec::new(), 0, 11, "t1").unwrap();
    let line = file_result(&file);
    assert_eq!(line.id, 11);
    assert_eq!(line.file_name, "a.png");
    assert_eq!(line.file_type, FileType::IMAGE);
    assert_eq!(line.image_type, ImageType::PNG);
    assert_eq!(line.size, 0);
    assert_eq!(line.create_time, "t1");

    let task = delete_task(70, &dir);
    assert_eq!(task.id, 70);
    assert_eq!(task.path_id, 9);
    assert!(!task.del_file_status);
    assert!(!task.del_path_status);
}

#[test]
fn a_new_directory_needs_a_name_or_a_parent() {
    assert!(!names_directory(0, ""));
    assert!(names_directory(0, "docs"));
    assert!(names_directory(5, ""));
    assert!(names_directory(5, "docs"));
}
