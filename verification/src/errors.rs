//! The service's error taxonomy and the response a client sees for each.

use vstd::prelude::*;

verus! {

/// Why an operation failed.
#[derive(Debug)]
pub enum AppError {
    /// A bucket, directory or file does not exist.
    NotFound(String),
    /// The caller may not do this. Says nothing on whether the resource exists.
    PermissionDenied(String),
    /// A name or path is too long or malformed.
    InvalidInput(String),
    /// A chunk of a file is gone from disk: the file cannot be recovered.
    ChunkMissing(String),
    /// Reading or writing the disk failed.
    StorageIO(String),
    /// The catalog could not be read or changed.
    CatalogError(String),
    /// A uniqueness rule of the catalog was violated.
    Conflict(String),
    /// A business rule was not met; the message is meant for the client.
    BizError(String),
    /// Anything else.
    InternalError(String),
    /// The session store failed.
    RedisError(String),
    /// The upload form could not be read.
    MultipartError(String),
    /// A request body did not pass validation; the text lists the fields.
    ValidateError(String),
}

/// The outcome classes of [`AppError`], without their messages.
#[derive(Clone, Copy, Debug, PartialEq, Eq, Structural)]
pub enum ErrorKind {
    NotFound,
    PermissionDenied,
    InvalidInput,
    ChunkMissing,
    StorageIO,
    CatalogError,
    Conflict,
    BizError,
    InternalError,
    RedisError,
    MultipartError,
    ValidateError,
}

impl AppError {
    /// The class of this error.
    pub open spec fn kind(self) -> ErrorKind {
        match self {
            AppError::NotFound(_) => ErrorKind::NotFound,
            AppError::PermissionDenied(_) => ErrorKind::PermissionDenied,
            AppError::InvalidInput(_) => ErrorKind::InvalidInput,
            AppError::ChunkMissing(_) => ErrorKind::ChunkMissing,
            AppError::StorageIO(_) => ErrorKind::StorageIO,
            AppError::CatalogError(_) => ErrorKind::CatalogError,
            AppError::Conflict(_) => ErrorKind::Conflict,
            AppError::BizError(_) => ErrorKind::BizError,
            AppError::InternalError(_) => ErrorKind::InternalError,
            AppError::RedisError(_) => ErrorKind::RedisError,
            AppError::MultipartError(_) => ErrorKind::MultipartError,
            AppError::ValidateError(_) => ErrorKind::ValidateError,
        }
    }

    /// The text carried by this error.
    pub open spec fn text(self) -> Seq<char> {
        match self {
            AppError::NotFound(m) => m@,
            AppError::PermissionDenied(m) => m@,
            AppError::InvalidInput(m) => m@,
            AppError::ChunkMissing(m) => m@,
            AppError::StorageIO(m) => m@,
            AppError::CatalogError(m) => m@,
            AppError::Conflict(m) => m@,
            AppError::BizError(m) => m@,
            AppError::InternalError(m) => m@,
            AppError::RedisError(m) => m@,
            AppError::MultipartError(m) => m@,
            AppError::ValidateError(m) => m@,
        }
    }

    /// Executable form of [`AppError::kind`].
    pub fn classify(&self) -> (k: ErrorKind)
        ensures
            k == self.kind(),
    {
        match self {
            AppError::NotFound(_) => ErrorKind::NotFound,
            AppError::PermissionDenied(_) => ErrorKind::PermissionDenied,
            AppError::InvalidInput(_) => ErrorKind::InvalidInput,
            AppError::ChunkMissing(_) => ErrorKind::ChunkMissing,
            AppError::StorageIO(_) => ErrorKind::StorageIO,
            AppError::CatalogError(_) => ErrorKind::CatalogError,
            AppError::Conflict(_) => ErrorKind::Conflict,
            AppError::BizError(_) => ErrorKind::BizError,
            AppError::InternalError(_) => ErrorKind::InternalError,
            AppError::RedisError(_) => ErrorKind::RedisError,
            AppError::MultipartError(_) => ErrorKind::MultipartError,
            AppError::ValidateError(_) => ErrorKind::ValidateError,
        }
    }

    /// The text carried by this error.
    pub fn message(&self) -> (m: String)
        ensures
            m@ == self.text(),
    {
        match self {
            AppError::NotFound(m) => m.clone(),
            AppError::PermissionDenied(m) => m.clone(),
            AppError::InvalidInput(m) => m.clone(),
            AppError::ChunkMissing(m) => m.clone(),
            AppError::StorageIO(m) => m.clone(),
            AppError::CatalogError(m) => m.clone(),
            AppError::Conflict(m) => m.clone(),
            AppError::BizError(m) => m.clone(),
            AppError::InternalError(m) => m.clone(),
            AppError::RedisError(m) => m.clone(),
            AppError::MultipartError(m) => m.clone(),
            AppError::ValidateError(m) => m.clone(),
        }
    }
}

impl ErrorKind {
    /// The HTTP status a client sees: 404 for what is absent, 400 for bad
    /// input, 500 for failures of disk, catalog or session store, and 200
    /// for the refusals that the client is expected to show to its user.
    pub open spec fn status(self) -> u16 {
        match self {
            ErrorKind::NotFound => 404,
            ErrorKind::InvalidInput => 400,
            ErrorKind::PermissionDenied
            | ErrorKind::BizError
            | ErrorKind::MultipartError
            | ErrorKind::ValidateError => 200,
            _ => 500,
        }
    }

    /// Whether the response's `success` flag is set. It is for every
    /// response that is not a 404 or a 500.
    pub open spec fn success(self) -> bool {
        self.status() == 200 || self.status() == 400
    }

    /// Whether the client is shown the error's own text. Otherwise it sees
    /// a fixed label for the class.
    pub open spec fn shows_text(self) -> bool {
        self == ErrorKind::PermissionDenied || self == ErrorKind::BizError
    }

    /// Executable form of [`ErrorKind::status`].
    pub fn status_code(&self) -> (code: u16)
        ensures
            code == self.status(),
    {
        match self {
            ErrorKind::NotFound => 404,
            ErrorKind::InvalidInput => 400,
            ErrorKind::PermissionDenied
            | ErrorKind::BizError
            | ErrorKind::MultipartError
            | ErrorKind::ValidateError => 200,
            _ => 500,
        }
    }

    /// The fixed label of the class.
    pub fn label(&self) -> (l: &'static str)
        ensures
            l@ == self.label_text(),
    {
        match self {
            ErrorKind::NotFound => "Not Found",
            ErrorKind::InvalidInput => "Invalid",
            ErrorKind::RedisError => "Internal Redis Error",
            ErrorKind::MultipartError => "MultipartError Error",
            ErrorKind::ValidateError => "ValidateError",
            ErrorKind::PermissionDenied => "Permission Denied",
            ErrorKind::BizError => "Biz Error",
            _ => "Internal Error",
        }
    }

    /// The fixed label of the class, as text.
    pub open spec fn label_text(self) -> Seq<char> {
        match self {
            ErrorKind::NotFound => "Not Found"@,
            ErrorKind::InvalidInput => "Invalid"@,
            ErrorKind::RedisError => "Internal Redis Error"@,
            ErrorKind::MultipartError => "MultipartError Error"@,
            ErrorKind::ValidateError => "ValidateError"@,
            ErrorKind::PermissionDenied => "Permission Denied"@,
            ErrorKind::BizError => "Biz Error"@,
            _ => "Internal Error"@,
        }
    }
}

/// What a client is sent when an operation fails.
#[derive(Debug)]
pub struct ErrorResponse {
    pub status: u16,
    pub success: bool,
    pub msg: String,
    pub errors: String,
}

impl ErrorResponse {
    /// The response for an error: status and flag by its class; the
    /// message is the error's text where the class shows it, else the
    /// class label; `errors` lists the fields of a validation failure and
    /// is empty otherwise.
    pub fn from_error(error: &AppError) -> (out: Self)
        ensures
            out.status == error.kind().status(),
            out.success == error.kind().success(),
            out.msg@ == if error.kind().shows_text() {
                error.text()
            } else {
                error.kind().label_text()
            },
            out.errors@ == if error.kind() == ErrorKind::ValidateError {
                error.text()
            } else {
                Seq::<char>::empty()
            },
    {
        let kind = error.classify();
        let status = kind.status_code();
        let success = status == 200 || status == 400;
        let msg = match kind {
            ErrorKind::PermissionDenied | ErrorKind::BizError => error.message(),
            _ => String::from_str(kind.label()),
        };
        let errors = match kind {
            ErrorKind::ValidateError => error.message(),
            _ => String::new(),
        };
        ErrorResponse { status, success, msg, errors }
    }
}

} // verus!
