use file_cloud::access::RightType;
use file_cloud::errors::AppError;
use file_cloud::models::{
    extension_of, grant_in, validate_bucket_name, BucketCache, BucketInfoResult, FileType,
    ImageType, UserCache,
};

#[test]
fn extensions() {
    assert_eq!(extension_of("photo.jpg"), Some("jpg".to_string()));
    assert_eq!(extension_of("archive.tar.gz"), Some("gz".to_string()));
    assert_eq!(extension_of("docs/report.v2/readme"), None);
    assert_eq!(extension_of("docs/report.v2/readme.md"), Some("md".to_string()));
    assert_eq!(extension_of("README"), None);
    assert_eq!(extension_of(".bashrc"), None);
    assert_eq!(extension_of("dir/.hidden"), None);
    assert_eq!(extension_of(".hidden.txt"), Some("txt".to_string()));
    assert_eq!(extension_of("trailing."), Some("".to_string()));
    assert_eq!(extension_of(""), None);
}

#[test]
fn file_types_by_extension() {
    let cases = [
        ("a.jpg", FileType::IMAGE),
        ("a.jpeg", FileType::IMAGE),
        ("a.png", FileType::IMAGE),
        ("a.gif", FileType::IMAGE),
        ("a.bmp", FileType::IMAGE),
        ("a.tif", FileType::IMAGE),
        ("a.tiff", FileType::IMAGE),
        ("a.webp", FileType::IMAGE),
        ("a.svg", FileType::SVG),
        ("a.ai", FileType::SVG),
        ("a.eps", FileType::SVG),
        ("a.mp4", FileType::VIDEO),
        ("a.mkv", FileType::VIDEO),
        ("a.avi", FileType::VIDEO),
        ("a.mov", FileType::VIDEO),
        ("a.flv", FileType::VIDEO),
        ("a.mp3", FileType::AUDIO),
        ("a.wav", FileType::AUDIO),
        ("a.flac", FileType::AUDIO),
        ("a.aac", FileType::AUDIO),
        ("a.txt", FileType::TEXT),
        ("a.md", FileType::TEXT),
        ("a.json", FileType::TEXT),
        ("a.xml", FileType::TEXT),
        ("a.toml", FileType::TEXT),
        ("a.conf", FileType::TEXT),
        ("a.zip", FileType::ZIP),
        ("a.rar", FileType::ZIP),
        ("a.tar", FileType::ZIP),
        ("a.gz", FileType::ZIP),
        ("a.c", FileType::SCRIPT),
        ("a.cpp", FileType::SCRIPT),
        ("a.py", FileType::SCRIPT),
        ("a.js", FileType::SCRIPT),
        ("a.html", FileType::SCRIPT),
        ("a.css", FileType::SCRIPT),
        ("a.java", FileType::SCRIPT),
        ("a.rs", FileType::SCRIPT),
        ("a.go", FileType::SCRIPT),
        ("a.cs", FileType::SCRIPT),
        ("a.doc", FileType::DOC),
        ("a.docx", FileType::DOC),
        ("a.odt", FileType::DOC),
        ("a.rtf", FileType::DOC),
        ("a.pdf", FileType::DOC),
        ("a.xls", FileType::EXCEL),
        ("a.xlsx", FileType::EXCEL),
        ("a.ods", FileType::EXCEL),
        ("a.csv", FileType::EXCEL),
        ("a.tsv", FileType::EXCEL),
        ("a.bin", FileType::NORMAL),
        ("a", FileType::NORMAL),
        ("", FileType::NORMAL),
    ];
    for (name, expected) in cases {
        assert_eq!(FileType::get_file_type(name), expected, "{}", name);
    }
}

#[test]
fn classification_ignores_case() {
    assert_eq!(FileType::get_file_type("PHOTO.JPG"), FileType::IMAGE);
    assert_eq!(FileType::get_file_type("Clip.Mp4"), FileType::VIDEO);
    assert_eq!(ImageType::get_image_type("PHOTO.JPG"), ImageType::JPG);
    assert_eq!(ImageType::get_image_type("x.WebP"), ImageType::WEBP);
    assert_eq!(FileType::from_extension("JPG"), FileType::NORMAL);
    assert_eq!(FileType::from_extension("jpg"), FileType::IMAGE);
}

#[test]
fn image_types_by_extension() {
    let cases = [
        ("a.jpg", ImageType::JPG),
        ("a.jpeg", ImageType::JPEG),
        ("a.svg", ImageType::SVG),
        ("a.png", ImageType::PNG),
        ("a.gif", ImageType::GIF),
        ("a.tiff", ImageType::TIFF),
        ("a.tif", ImageType::TIF),
        ("a.webp", ImageType::WEBP),
        ("a.bmp", ImageType::BMP),
        ("a.txt", ImageType::NONE),
        ("a", ImageType::NONE),
    ];
    for (name, expected) in cases {
        assert_eq!(ImageType::get_image_type(name), expected, "{}", name);
    }
    assert_eq!(ImageType::from_extension("png"), ImageType::PNG);
    assert_eq!(ImageType::from_extension("PNG"), ImageType::NONE);
}

#[test]
fn stored_names_of_kinds() {
    assert_eq!(FileType::IMAGE.as_str(), "IMAGE");
    assert_eq!(FileType::DIR.as_str(), "DIR");
    assert_eq!(FileType::NORMAL.as_str(), "NORMAL");
    assert_eq!(ImageType::NONE.as_str(), "NONE");
    assert_eq!(ImageType::WEBP.as_str(), "WEBP");
}

#[test]
fn bucket_names() {
    assert!(validate_bucket_name("a").is_ok());
    assert!(validate_bucket_name("abcdefghijklmnopqrstuvwxyz012345").is_ok());
    assert!(matches!(validate_bucket_name(""), Err(AppError::ValidateError(_))));
    assert!(matches!(
        validate_bucket_name("abcdefghijklmnopqrstuvwxyz0123456"),
        Err(AppError::ValidateError(_))
    ));
}

#[test]
fn grants_remembered_by_a_session() {
    let user = UserCache {
        id: 1,
        is_admin: false,
        user_name: "u".to_string(),
        bucket_list: vec![
            BucketCache { right_id: 1, bucket_id: 10, name: "a".to_string(), right_type: 0 },
            BucketCache { right_id: 2, bucket_id: 11, name: "b".to_string(), right_type: 2 },
            BucketCache { right_id: 3, bucket_id: 12, name: "c".to_string(), right_type: 9 },
            BucketCache { right_id: 4, bucket_id: 10, name: "a".to_string(), right_type: 1 },
        ],
    };
    assert_eq!(user.grant_for(10), Some(RightType::Read));
    assert_eq!(user.grant_for(11), Some(RightType::ReadWrite));
    assert_eq!(user.grant_for(12), None);
    assert_eq!(user.grant_for(13), None);
}

#[test]
fn grants_listed_for_a_user() {
    let list = vec![
        BucketInfoResult { bucket_id: 5, name: "x".to_string(), right: RightType::Write },
        BucketInfoResult { bucket_id: 6, name: "y".to_string(), right: RightType::Read },
    ];
    assert_eq!(grant_in(&list, 5), Some(RightType::Write));
    assert_eq!(grant_in(&list, 6), Some(RightType::Read));
    assert_eq!(grant_in(&list, 7), None);
    assert_eq!(grant_in(&Vec::new(), 5), None);
}
