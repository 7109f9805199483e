use file_cloud::errors::{AppError, ErrorKind, ErrorResponse};

fn all() -> Vec<(AppError, ErrorKind, u16, bool, &'static str, &'static str)> {
    let m = || "m".to_string();
    vec![
        (AppError::NotFound(m()), ErrorKind::NotFound, 404, false, "Not Found", ""),
        (AppError::PermissionDenied(m()), ErrorKind::PermissionDenied, 200, true, "m", ""),
        (AppError::InvalidInput(m()), ErrorKind::InvalidInput, 400, true, "Invalid", ""),
        (AppError::ChunkMissing(m()), ErrorKind::ChunkMissing, 500, false, "Internal Error", ""),
        (AppError::StorageIO(m()), ErrorKind::StorageIO, 500, false, "Internal Error", ""),
        (AppError::CatalogError(m()), ErrorKind::CatalogError, 500, false, "Internal Error", ""),
        (AppError::Conflict(m()), ErrorKind::Conflict, 500, false, "Internal Error", ""),
        (AppError::BizError(m()), ErrorKind::BizError, 200, true, "m", ""),
        (AppError::InternalError(m()), ErrorKind::InternalError, 500, false, "Internal Error", ""),
        (AppError::RedisError(m()), ErrorKind::RedisError, 500, false, "Internal Redis Error", ""),
        (AppError::MultipartError(m()), ErrorKind::MultipartError, 200, true, "MultipartError Error", ""),
        (AppError::ValidateError(m()), ErrorKind::ValidateError, 200, true, "ValidateError", "m"),
    ]
}

#[test]
fn response_for_every_error() {
    for (error, kind, status, success, msg, errors) in all() {
        assert_eq!(error.classify(), kind);
        assert_eq!(error.message(), "m");
        assert_eq!(kind.status_code(), status);
        let response = ErrorResponse::from_error(&error);
        assert_eq!(response.status, status, "{:?}", kind);
        assert_eq!(response.success, success, "{:?}", kind);
        assert_eq!(response.msg, msg, "{:?}", kind);
        assert_eq!(response.errors, errors, "{:?}", kind);
    }
}

#[test]
fn labels() {
    assert_eq!(ErrorKind::NotFound.label(), "Not Found");
    assert_eq!(ErrorKind::PermissionDenied.label(), "Permission Denied");
    assert_eq!(ErrorKind::BizError.label(), "Biz Error");
    assert_eq!(ErrorKind::ChunkMissing.label(), "Internal Error");
}
