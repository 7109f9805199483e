use file_cloud::catalog::record_file;
use file_cloud::chunk::FileItemDto;
use file_cloud::errors::AppError;
use file_cloud::models::{FileInfo, FileType, PathInfo};
use file_cloud::retrieval::{
    check_chunk, holds_text, parent_dir, plan_package, reconstruct, subtree_prefix, ChunkRead,
    PackageStep,
};
use std::io::{Read, Write};

fn record(id: i64, dir: &str, name: &str, chunks: &[(&str, u32)]) -> FileInfo {
    let items: Vec<FileItemDto> =
        chunks.iter().map(|(p, s)| FileItemDto { path: p.to_string(), size: *s }).collect();
    let size: u64 = chunks.iter().map(|(_, s)| *s as u64).sum();
    let path_ref = if dir.is_empty() { 0 } else { 5 };
    record_file(1, path_ref, dir, name, FileType::NORMAL, items, size, id, "t").unwrap()
}

#[test]
fn reconstruct_concatenates_in_list_order() {
    let file = record(1, "", "f", &[("a", 3), ("b", 2)]);
    let reads = vec![ChunkRead::Data(vec![1, 2, 3]), ChunkRead::Data(vec![4, 5])];
    assert_eq!(reconstruct(&file, &reads).unwrap(), vec![1, 2, 3, 4, 5]);
    let empty = record(2, "", "e", &[]);
    assert_eq!(reconstruct(&empty, &Vec::new()).unwrap(), Vec::<u8>::new());
}

#[test]
fn missing_chunk_is_told_apart_from_io_errors() {
    let file = record(1, "", "f", &[("a", 3), ("b", 2)]);
    let reads = vec![ChunkRead::Data(vec![1, 2, 3]), ChunkRead::Missing];
    match reconstruct(&file, &reads) {
        Err(AppError::ChunkMissing(path)) => assert_eq!(path, "b"),
        other => panic!("unexpected {:?}", other),
    }
    let reads = vec![ChunkRead::Failed("permission denied".to_string())];
    match reconstruct(&file, &reads) {
        Err(AppError::StorageIO(text)) => assert_eq!(text, "permission denied"),
        other => panic!("unexpected {:?}", other),
    }
    let reads = vec![ChunkRead::Missing, ChunkRead::Failed("x".to_string())];
    assert!(matches!(reconstruct(&file, &reads), Err(AppError::ChunkMissing(_))));
}

#[test]
fn wrong_sizes_are_storage_errors() {
    let file = record(1, "", "f", &[("a", 3), ("b", 2)]);
    let short = vec![ChunkRead::Data(vec![1, 2]), ChunkRead::Data(vec![4, 5])];
    assert!(matches!(reconstruct(&file, &short), Err(AppError::StorageIO(_))));
    let too_few = vec![ChunkRead::Data(vec![1, 2, 3])];
    assert!(matches!(reconstruct(&file, &too_few), Err(AppError::StorageIO(_))));
    let too_many =
        vec![ChunkRead::Data(vec![1, 2, 3]), ChunkRead::Data(vec![4, 5]), ChunkRead::Data(vec![])];
    assert!(matches!(reconstruct(&file, &too_many), Err(AppError::StorageIO(_))));
    let mut lying = record(1, "", "f", &[("a", 3)]);
    lying.size = 4;
    assert!(matches!(
        reconstruct(&lying, &vec![ChunkRead::Data(vec![1, 2, 3])]),
        Err(AppError::StorageIO(_))
    ));
}

#[test]
fn one_chunk_against_its_record() {
    let item = FileItemDto { path: "p".to_string(), size: 2 };
    assert!(check_chunk(&item, &ChunkRead::Data(vec![1, 2])).is_ok());
    assert!(matches!(check_chunk(&item, &ChunkRead::Data(vec![1])), Err(AppError::StorageIO(_))));
    assert!(matches!(check_chunk(&item, &ChunkRead::Missing), Err(AppError::ChunkMissing(_))));
    assert!(matches!(
        check_chunk(&item, &ChunkRead::Failed("e".to_string())),
        Err(AppError::StorageIO(_))
    ));
}

#[test]
fn directory_parts() {
    assert_eq!(parent_dir("docs/reports/a.txt"), "docs/reports");
    assert_eq!(parent_dir("a.txt"), "");
    assert_eq!(parent_dir("docs/a.txt"), "docs");
    assert_eq!(parent_dir("/a.txt"), "");
    assert_eq!(parent_dir(""), "");
    let dir = PathInfo {
        id: 1,
        bucket_id: 1,
        root: false,
        path: "reports".to_string(),
        parent: 3,
        full_path: "docs/reports".to_string(),
        create_time: "t".to_string(),
    };
    assert_eq!(subtree_prefix(&dir), "docs/reports/");
    assert!(holds_text(&vec!["a".to_string(), "b".to_string()], "b"));
    assert!(!holds_text(&vec!["a".to_string(), "b".to_string()], "c"));
}

fn sample_tree() -> Vec<FileInfo> {
    vec![
        record(1, "docs", "readme.md", &[("c1", 3)]),
        record(2, "docs/reports", "q1.csv", &[("c2", 2), ("c3", 2)]),
        record(3, "docs/reports", "q2.csv", &[]),
    ]
}

#[test]
fn plan_makes_each_directory_once_and_writes_each_file() {
    let files = sample_tree();
    let steps = plan_package(&files);
    let mut dirs = Vec::new();
    let mut writes = Vec::new();
    for step in &steps {
        match step {
            PackageStep::EnsureDir { dir } => dirs.push(dir.clone()),
            PackageStep::WriteFile { path, size, items } => {
                assert!(dirs.contains(&parent_dir(path)));
                writes.push((path.clone(), *size, items.len()));
            }
        }
    }
    assert_eq!(dirs, vec!["docs", "docs/reports"]);
    assert_eq!(
        writes,
        vec![
            ("docs/readme.md".to_string(), 3, 1),
            ("docs/reports/q1.csv".to_string(), 4, 2),
            ("docs/reports/q2.csv".to_string(), 0, 0),
        ]
    );
    assert_eq!(steps.len(), 5);
    assert!(plan_package(&Vec::new()).is_empty());
}

#[test]
fn directory_packaging() {
    let files = sample_tree();
    let chunk = |path: &str| -> Vec<u8> {
        match path {
            "c1" => b"one".to_vec(),
            "c2" => b"tw".to_vec(),
            "c3" => b"o!".to_vec(),
            _ => panic!("no such chunk"),
        }
    };

    let mut zip = zip::ZipWriter::new(std::io::Cursor::new(Vec::new()));
    let options = zip::write::SimpleFileOptions::default()
        .compression_method(zip::CompressionMethod::Deflated);
    for step in plan_package(&files) {
        match step {
            PackageStep::EnsureDir { dir } => {
                zip.add_directory(dir, options).unwrap();
            }
            PackageStep::WriteFile { path, size, items } => {
                let reads: Vec<ChunkRead> =
                    items.iter().map(|i| ChunkRead::Data(chunk(&i.path))).collect();
                let file = files.iter().find(|f| f.full_path == path).unwrap();
                let bytes = reconstruct(file, &reads).unwrap();
                assert_eq!(bytes.len() as u64, size);
                zip.start_file(path, options).unwrap();
                zip.write_all(&bytes).unwrap();
            }
        }
    }
    let packed = zip.finish().unwrap().into_inner();

    let mut archive = zip::ZipArchive::new(std::io::Cursor::new(packed)).unwrap();
    let mut extracted_files = Vec::new();
    let mut extracted_dirs = Vec::new();
    for i in 0..archive.len() {
        let mut entry = archive.by_index(i).unwrap();
        let name = entry.name().trim_end_matches('/').to_string();
        if entry.is_dir() {
            extracted_dirs.push(name);
        } else {
            let mut bytes = Vec::new();
            entry.read_to_end(&mut bytes).unwrap();
            extracted_files.push((name, bytes));
        }
    }
    extracted_files.sort();
    extracted_dirs.sort();
    assert_eq!(extracted_dirs, vec!["docs", "docs/reports"]);
    assert_eq!(
        extracted_files,
        vec![
            ("docs/readme.md".to_string(), b"one".to_vec()),
            ("docs/reports/q1.csv".to_string(), b"two!".to_vec()),
            ("docs/reports/q2.csv".to_string(), Vec::new()),
        ]
    );
}
