//! The records of the catalog: buckets, directories, files, and how a file
//! is classified by its name.

use crate::access::RightType;
use crate::chunk::{chunk_refs, recorded_size, ChunkRef, FileItemDto};
use crate::errors::{AppError, ErrorKind};
use crate::text::{chars_of, find_last, last_index_of, lowercase, same_text, string_of_range};
use vstd::prelude::*;

verus! {

/// The extension of a file name: what follows the last `.` of the part
/// after the last `/`. There is none where that part has no `.`, or only
/// one at its very start.
pub open spec fn extension(name: Seq<char>) -> Option<Seq<char>> {
    let base = name.skip(last_index_of(name, '/') + 1);
    let dot = last_index_of(base, '.');
    if dot <= 0 {
        None
    } else {
        Some(base.skip(dot + 1))
    }
}

/// The extension, or the empty text where there is none.
pub open spec fn extension_or_empty(name: Seq<char>) -> Seq<char> {
    match extension(name) {
        Some(ext) => ext,
        None => Seq::<char>::empty(),
    }
}

/// Extracts the extension of a file name.
pub fn extension_of(name: &str) -> (r: Option<String>)
    ensures
        r is Some <==> extension(name@) is Some,
        r is Some ==> r->0@ == extension(name@)->0,
{
    let chars = chars_of(name);
    let n = chars.len();
    proof {
        assert(chars@.take(n as int) =~= chars@);
        crate::text::lemma_last_index_of(chars@, '/');
    }
    let start = match find_last(chars.as_slice(), n, '/') {
        Some(i) => i + 1,
        None => 0,
    };
    let base = vstd::slice::slice_subrange(chars.as_slice(), start, n);
    proof {
        assert(base@ =~= name@.skip(start as int));
        assert(base@.take(base@.len() as int) =~= base@);
        crate::text::lemma_last_index_of(base@, '.');
    }
    match find_last(base, base.len(), '.') {
        Some(dot) => {
            if dot == 0 {
                None
            } else {
                let ext = string_of_range(base, dot + 1, base.len());
                proof {
                    assert(base@.subrange(dot as int + 1, base@.len() as int) =~= base@.skip(
                        dot as int + 1,
                    ));
                }
                Some(ext)
            }
        },
        None => None,
    }
}

/// What kind of content a file holds, judged by its name.
#[derive(Clone, Copy, Debug, PartialEq, Eq, Structural)]
pub enum FileType {
    IMAGE,
    SVG,
    NORMAL,
    TEXT,
    DOC,
    SCRIPT,
    ZIP,
    VIDEO,
    AUDIO,
    EXCEL,
    DIR,
}

impl FileType {
    /// The kind that a lowercase extension stands for.
    pub open spec fn of_extension(ext: Seq<char>) -> FileType {
        if ext == "jpg"@ || ext == "jpeg"@ || ext == "png"@ || ext == "gif"@ || ext == "bmp"@ || ext
            == "tif"@ || ext == "tiff"@ || ext == "webp"@ {
            FileType::IMAGE
        } else if ext == "svg"@ || ext == "ai"@ || ext == "eps"@ {
            FileType::SVG
        } else if ext == "mp4"@ || ext == "mkv"@ || ext == "avi"@ || ext == "mov"@ || ext == "flv"@ {
            FileType::VIDEO
        } else if ext == "mp3"@ || ext == "wav"@ || ext == "flac"@ || ext == "aac"@ {
            FileType::AUDIO
        } else if ext == "txt"@ || ext == "md"@ || ext == "json"@ || ext == "xml"@ || ext
            == "toml"@ || ext == "conf"@ {
            FileType::TEXT
        } else if ext == "zip"@ || ext == "rar"@ || ext == "tar"@ || ext == "gz"@ {
            FileType::ZIP
        } else if ext == "c"@ || ext == "cpp"@ || ext == "py"@ || ext == "js"@ || ext == "html"@
            || ext == "css"@ || ext == "java"@ || ext == "rs"@ || ext == "go"@ || ext == "cs"@ {
            FileType::SCRIPT
        } else if ext == "doc"@ || ext == "docx"@ || ext == "odt"@ || ext == "rtf"@ || ext
            == "pdf"@ {
            FileType::DOC
        } else if ext == "xls"@ || ext == "xlsx"@ || ext == "ods"@ || ext == "csv"@ || ext
            == "tsv"@ {
            FileType::EXCEL
        } else {
            FileType::NORMAL
        }
    }

    /// Classifies a lowercase extension.
    pub fn from_extension(ext: &str) -> (t: FileType)
        ensures
            t == FileType::of_extension(ext@),
    {
        if same_text(ext, "jpg") || same_text(ext, "jpeg") || same_text(ext, "png") || same_text(
            ext,
            "gif",
        ) || same_text(ext, "bmp") || same_text(ext, "tif") || same_text(ext, "tiff") || same_text(
            ext,
            "webp",
        ) {
            FileType::IMAGE
        } else if same_text(ext, "svg") || same_text(ext, "ai") || same_text(ext, "eps") {
            FileType::SVG
        } else if same_text(ext, "mp4") || same_text(ext, "mkv") || same_text(ext, "avi")
            || same_text(ext, "mov") || same_text(ext, "flv") {
            FileType::VIDEO
        } else if same_text(ext, "mp3") || same_text(ext, "wav") || same_text(ext, "flac")
            || same_text(ext, "aac") {
            FileType::AUDIO
        } else if same_text(ext, "txt") || same_text(ext, "md") || same_text(ext, "json")
            || same_text(ext, "xml") || same_text(ext, "toml") || same_text(ext, "conf") {
            FileType::TEXT
        } else if same_text(ext, "zip") || same_text(ext, "rar") || same_text(ext, "tar")
            || same_text(ext, "gz") {
            FileType::ZIP
        } else if same_text(ext, "c") || same_text(ext, "cpp") || same_text(ext, "py") || same_text(
            ext,
            "js",
        ) || same_text(ext, "html") || same_text(ext, "css") || same_text(ext, "java") || same_text(
            ext,
            "rs",
        ) || same_text(ext, "go") || same_text(ext, "cs") {
            FileType::SCRIPT
        } else if same_text(ext, "doc") || same_text(ext, "docx") || same_text(ext, "odt")
            || same_text(ext, "rtf") || same_text(ext, "pdf") {
            FileType::DOC
        } else if same_text(ext, "xls") || same_text(ext, "xlsx") || same_text(ext, "ods")
            || same_text(ext, "csv") || same_text(ext, "tsv") {
            FileType::EXCEL
        } else {
            FileType::NORMAL
        }
    }

    /// The kind of a file, by the lowercase form of its name's extension.
    pub fn get_file_type(file_path: &str) -> (t: FileType)
        ensures
            t == FileType::of_extension(lowercase(extension_or_empty(file_path@))),
    {
        let ext = match extension_of(file_path) {
            Some(e) => e,
            None => String::new(),
        };
        let lower = ext.as_str().to_lowercase();
        FileType::from_extension(lower.as_str())
    }

    /// The name the catalog stores for this kind.
    pub open spec fn name(self) -> Seq<char> {
        match self {
            FileType::IMAGE => "IMAGE"@,
            FileType::SVG => "SVG"@,
            FileType::NORMAL => "NORMAL"@,
            FileType::TEXT => "TEXT"@,
            FileType::DOC => "DOC"@,
            FileType::SCRIPT => "SCRIPT"@,
            FileType::ZIP => "ZIP"@,
            FileType::VIDEO => "VIDEO"@,
            FileType::AUDIO => "AUDIO"@,
            FileType::EXCEL => "EXCEL"@,
            FileType::DIR => "DIR"@,
        }
    }

    /// Executable form of [`FileType::name`].
    pub fn as_str(&self) -> (s: &'static str)
        ensures
            s@ == self.name(),
    {
        match self {
            FileType::IMAGE => "IMAGE",
            FileType::SVG => "SVG",
            FileType::NORMAL => "NORMAL",
            FileType::TEXT => "TEXT",
            FileType::DOC => "DOC",
            FileType::SCRIPT => "SCRIPT",
            FileType::ZIP => "ZIP",
            FileType::VIDEO => "VIDEO",
            FileType::AUDIO => "AUDIO",
            FileType::EXCEL => "EXCEL",
            FileType::DIR => "DIR",
        }
    }

    /// The kind that a stored name stands for, if it stands for one.
    pub fn parse(name: &str) -> (r: Option<FileType>)
        ensures
            r is Some ==> r->0.name() == name@,
            r is None ==> forall|kind: FileType| #[trigger] kind.name() != name@,
    {
        if same_text(name, "IMAGE") {
            Some(FileType::IMAGE)
        } else if same_text(name, "SVG") {
            Some(FileType::SVG)
        } else if same_text(name, "NORMAL") {
            Some(FileType::NORMAL)
        } else if same_text(name, "TEXT") {
            Some(FileType::TEXT)
        } else if same_text(name, "DOC") {
            Some(FileType::DOC)
        } else if same_text(name, "SCRIPT") {
            Some(FileType::SCRIPT)
        } else if same_text(name, "ZIP") {
            Some(FileType::ZIP)
        } else if same_text(name, "VIDEO") {
            Some(FileType::VIDEO)
        } else if same_text(name, "AUDIO") {
            Some(FileType::AUDIO)
        } else if same_text(name, "EXCEL") {
            Some(FileType::EXCEL)
        } else if same_text(name, "DIR") {
            Some(FileType::DIR)
        } else {
            None
        }
    }
}

/// The format of an image file; `NONE` for what is not an image.
#[derive(Clone, Copy, Debug, PartialEq, Eq, Structural)]
pub enum ImageType {
    WEBP,
    SVG,
    GIF,
    JPG,
    JPEG,
    PNG,
    TIFF,
    TIF,
    BMP,
    NONE,
}

impl ImageType {
    /// The image format that a lowercase extension stands for.
    pub open spec fn of_extension(ext: Seq<char>) -> ImageType {
        if ext == "jpg"@ {
            ImageType::JPG
        } else if ext == "jpeg"@ {
            ImageType::JPEG
        } else if ext == "svg"@ {
            ImageType::SVG
        } else if ext == "png"@ {
            ImageType::PNG
        } else if ext == "gif"@ {
            ImageType::GIF
        } else if ext == "tiff"@ {
            ImageType::TIFF
        } else if ext == "tif"@ {
            ImageType::TIF
        } else if ext == "webp"@ {
            ImageType::WEBP
        } else if ext == "bmp"@ {
            ImageType::BMP
        } else {
            ImageType::NONE
        }
    }

    /// Classifies a lowercase extension.
    pub fn from_extension(ext: &str) -> (t: ImageType)
        ensures
            t == ImageType::of_extension(ext@),
    {
        if same_text(ext, "jpg") {
            ImageType::JPG
        } else if same_text(ext, "jpeg") {
            ImageType::JPEG
        } else if same_text(ext, "svg") {
            ImageType::SVG
        } else if same_text(ext, "png") {
            ImageType::PNG
        } else if same_text(ext, "gif") {
            ImageType::GIF
        } else if same_text(ext, "tiff") {
            ImageType::TIFF
        } else if same_text(ext, "tif") {
            ImageType::TIF
        } else if same_text(ext, "webp") {
            ImageType::WEBP
        } else if same_text(ext, "bmp") {
            ImageType::BMP
        } else {
            ImageType::NONE
        }
    }

    /// The image format of a file, by the lowercase form of its name's
    /// extension.
    pub fn get_image_type(file_path: &str) -> (t: ImageType)
        ensures
            t == ImageType::of_extension(lowercase(extension_or_empty(file_path@))),
    {
        let ext = match extension_of(file_path) {
            Some(e) => e,
            None => String::new(),
        };
        let lower = ext.as_str().to_lowercase();
        ImageType::from_extension(lower.as_str())
    }

    /// The name the catalog stores for this format.
    pub open spec fn name(self) -> Seq<char> {
        match self {
            ImageType::WEBP => "WEBP"@,
            ImageType::SVG => "SVG"@,
            ImageType::GIF => "GIF"@,
            ImageType::JPG => "JPG"@,
            ImageType::JPEG => "JPEG"@,
            ImageType::PNG => "PNG"@,
            ImageType::TIFF => "TIFF"@,
            ImageType::TIF => "TIF"@,
            ImageType::BMP => "BMP"@,
            ImageType::NONE => "NONE"@,
        }
    }

    /// Executable form of [`ImageType::name`].
    pub fn as_str(&self) -> (s: &'static str)
        ensures
            s@ == self.name(),
    {
        match self {
            ImageType::WEBP => "WEBP",
            ImageType::SVG => "SVG",
            ImageType::GIF => "GIF",
            ImageType::JPG => "JPG",
            ImageType::JPEG => "JPEG",
            ImageType::PNG => "PNG",
            ImageType::TIFF => "TIFF",
            ImageType::TIF => "TIF",
            ImageType::BMP => "BMP",
            ImageType::NONE => "NONE",
        }
    }

    /// The format that a stored name stands for, if it stands for one.
    pub fn parse(name: &str) -> (r: Option<ImageType>)
        ensures
            r is Some ==> r->0.name() == name@,
            r is None ==> forall|format: ImageType| #[trigger] format.name() != name@,
    {
        if same_text(name, "WEBP") {
            Some(ImageType::WEBP)
        } else if same_text(name, "SVG") {
            Some(ImageType::SVG)
        } else if same_text(name, "GIF") {
            Some(ImageType::GIF)
        } else if same_text(name, "JPG") {
            Some(ImageType::JPG)
        } else if same_text(name, "JPEG") {
            Some(ImageType::JPEG)
        } else if same_text(name, "PNG") {
            Some(ImageType::PNG)
        } else if same_text(name, "TIFF") {
            Some(ImageType::TIFF)
        } else if same_text(name, "TIF") {
            Some(ImageType::TIF)
        } else if same_text(name, "BMP") {
            Some(ImageType::BMP)
        } else if same_text(name, "NONE") {
            Some(ImageType::NONE)
        } else {
            None
        }
    }
}

/// Longest bucket name, in characters.
pub const MAX_BUCKET_NAME: usize = 32;

/// Longest file name, in bytes.
pub const MAX_FILE_NAME: usize = 64;

/// Longest virtual path, in bytes.
pub const MAX_PATH_LEN: usize = 128;

/// A top-level namespace with its own access flags and directory tree.
#[derive(Debug)]
pub struct Bucket {
    pub id: i64,
    /// Unique among buckets; between 1 and 32 characters.
    pub name: String,
    /// What the bucket is meant to hold. The quota informs; no upload is
    /// refused on its account.
    pub quota: i32,
    /// A coarse count of what the bucket holds. It is not kept equal to the
    /// sizes of the bucket's files.
    pub current_quota: i32,
    /// Anyone may read.
    pub pub_read: bool,
    /// Anyone may write.
    pub pub_write: bool,
    pub create_time: String,
}

/// A bucket name is valid when it has between 1 and 32 characters.
pub open spec fn valid_bucket_name(name: Seq<char>) -> bool {
    1 <= name.len() <= MAX_BUCKET_NAME
}

/// Checks a bucket name.
pub fn validate_bucket_name(name: &str) -> (r: Result<(), AppError>)
    ensures
        r is Ok <==> valid_bucket_name(name@),
        r is Err ==> r->Err_0.kind() == ErrorKind::ValidateError,
{
    let n = name.unicode_len();
    if 1 <= n && n <= MAX_BUCKET_NAME {
        Ok(())
    } else {
        Err(AppError::ValidateError(String::from_str("name")))
    }
}

/// One directory of a bucket's virtual tree.
#[derive(Debug)]
pub struct PathInfo {
    pub id: i64,
    pub bucket_id: i64,
    pub root: bool,
    /// The directory's own name: one path component.
    pub path: String,
    /// Id of the parent directory; 0 for a directory at the top of the bucket.
    pub parent: i64,
    /// The components from the top of the bucket down to this directory,
    /// joined by `/`.
    pub full_path: String,
    pub create_time: String,
}

/// Mathematical model of a [`PathInfo`].
pub struct PathNode {
    pub id: i64,
    pub bucket_id: i64,
    pub root: bool,
    pub path: Seq<char>,
    pub parent: i64,
    pub full_path: Seq<char>,
    pub create_time: Seq<char>,
}

impl View for PathInfo {
    type V = PathNode;

    open spec fn view(&self) -> PathNode {
        PathNode {
            id: self.id,
            bucket_id: self.bucket_id,
            root: self.root,
            path: self.path@,
            parent: self.parent,
            full_path: self.full_path@,
            create_time: self.create_time@,
        }
    }
}

impl Clone for PathInfo {
    fn clone(&self) -> (out: Self)
        ensures
            out@ == self@,
    {
        PathInfo {
            id: self.id,
            bucket_id: self.bucket_id,
            root: self.root,
            path: self.path.clone(),
            parent: self.parent,
            full_path: self.full_path.clone(),
            create_time: self.create_time.clone(),
        }
    }
}

impl PathNode {
    /// A directory is a root exactly when it has no parent.
    pub open spec fn well_formed(self) -> bool {
        self.root == (self.parent == 0)
    }
}

/// One stored file: its place in the tree, its classification, and the
/// chunks that hold its bytes.
#[derive(Debug)]
pub struct FileInfo {
    pub id: i64,
    pub root: bool,
    pub bucket_id: i64,
    /// Id of the directory the file lies in; 0 for the top of the bucket.
    pub path_ref: i64,
    pub name: String,
    /// Virtual path of the file's directory: empty at the top of the
    /// bucket, else the directory's full path followed by `/`.
    pub full_path: String,
    pub file_type: FileType,
    pub items: Vec<FileItemDto>,
    pub image_type: ImageType,
    pub size: u64,
    pub create_time: String,
}

/// Mathematical model of a [`FileInfo`].
pub struct FileRecord {
    pub id: i64,
    pub root: bool,
    pub bucket_id: i64,
    pub path_ref: i64,
    pub name: Seq<char>,
    pub full_path: Seq<char>,
    pub file_type: FileType,
    pub items: Seq<ChunkRef>,
    pub image_type: ImageType,
    pub size: u64,
    pub create_time: Seq<char>,
}

impl View for FileInfo {
    type V = FileRecord;

    open spec fn view(&self) -> FileRecord {
        FileRecord {
            id: self.id,
            root: self.root,
            bucket_id: self.bucket_id,
            path_ref: self.path_ref,
            name: self.name@,
            full_path: self.full_path@,
            file_type: self.file_type,
            items: chunk_refs(self.items@),
            image_type: self.image_type,
            size: self.size,
            create_time: self.create_time@,
        }
    }
}

impl FileRecord {
    /// The recorded size is the sum of the chunk sizes; a file lies at the
    /// top of its bucket exactly when it refers to no directory; only an
    /// image has an image format.
    pub open spec fn well_formed(self) -> bool {
        &&& self.size == recorded_size(self.items)
        &&& self.root == (self.path_ref == 0)
        &&& self.file_type != FileType::IMAGE ==> self.image_type == ImageType::NONE
    }
}

/// Copies a chunk list.
pub fn clone_items(items: &Vec<FileItemDto>) -> (out: Vec<FileItemDto>)
    ensures
        chunk_refs(out@) == chunk_refs(items@),
{
    let mut out: Vec<FileItemDto> = Vec::new();
    let mut i: usize = 0;
    while i < items.len()
        invariant
            i <= items.len(),
            out@.len() == i,
            forall|k: int| 0 <= k < i ==> (#[trigger] out@[k])@ == items@[k]@,
        decreases items.len() - i,
    {
        out.push(items[i].clone());
        i += 1;
    }
    proof {
        assert(chunk_refs(out@) =~= chunk_refs(items@));
    }
    out
}

impl Clone for FileInfo {
    fn clone(&self) -> (out: Self)
        ensures
            out@ == self@,
    {
        FileInfo {
            id: self.id,
            root: self.root,
            bucket_id: self.bucket_id,
            path_ref: self.path_ref,
            name: self.name.clone(),
            full_path: self.full_path.clone(),
            file_type: self.file_type,
            items: clone_items(&self.items),
            image_type: self.image_type,
            size: self.size,
            create_time: self.create_time.clone(),
        }
    }
}

/// The order to purge a deleted directory: its files first, then the
/// directory itself. A sweeper outside this library carries it out.
#[derive(Clone, Copy, Debug, PartialEq, Eq, Structural)]
pub struct PathDelTask {
    pub id: i64,
    pub path_id: i64,
    pub del_file_status: bool,
    pub del_path_status: bool,
}

/// One grant of a user as the session remembers it.
#[derive(Debug)]
pub struct BucketCache {
    pub right_id: i64,
    pub bucket_id: i64,
    pub name: String,
    /// The grant as a number; see [`RightType::code_of`].
    pub right_type: i32,
}

/// What a session knows of its user.
#[derive(Debug)]
pub struct UserCache {
    pub id: i64,
    pub is_admin: bool,
    pub user_name: String,
    pub bucket_list: Vec<BucketCache>,
}

/// The grant on a bucket among the grants a session remembers: that of the
/// first entry for the bucket, if its number stands for a grant.
pub open spec fn cached_grant(list: Seq<BucketCache>, bucket_id: i64) -> Option<RightType>
    decreases list.len(),
{
    if list.len() == 0 {
        None
    } else if list[0].bucket_id == bucket_id {
        if list[0].right_type == 0 {
            Some(RightType::Read)
        } else if list[0].right_type == 1 {
            Some(RightType::Write)
        } else if list[0].right_type == 2 {
            Some(RightType::ReadWrite)
        } else {
            None
        }
    } else {
        cached_grant(list.skip(1), bucket_id)
    }
}

impl UserCache {
    /// The grant this session remembers for a bucket.
    pub fn grant_for(&self, bucket_id: i64) -> (r: Option<RightType>)
        ensures
            r == cached_grant(self.bucket_list@, bucket_id),
    {
        let mut i: usize = 0;
        proof {
            assert(self.bucket_list@.skip(0) =~= self.bucket_list@);
        }
        while i < self.bucket_list.len()
            invariant
                i <= self.bucket_list.len(),
                cached_grant(self.bucket_list@, bucket_id) == cached_grant(
                    self.bucket_list@.skip(i as int),
                    bucket_id,
                ),
            decreases self.bucket_list.len() - i,
        {
            proof {
                assert(self.bucket_list@.skip(i as int)[0] == self.bucket_list@[i as int]);
                assert(self.bucket_list@.skip(i as int).skip(1) =~= self.bucket_list@.skip(
                    i as int + 1,
                ));
            }
            if self.bucket_list[i].bucket_id == bucket_id {
                return RightType::from_code(self.bucket_list[i].right_type);
            }
            i += 1;
        }
        None
    }
}

/// A grant together with the bucket's name, as listed for a user.
#[derive(Debug)]
pub struct BucketInfoResult {
    pub bucket_id: i64,
    pub name: String,
    pub right: RightType,
}

/// The grant on one bucket among the grants listed for a user.
pub open spec fn listed_grant(list: Seq<BucketInfoResult>, bucket_id: i64) -> Option<RightType>
    decreases list.len(),
{
    if list.len() == 0 {
        None
    } else if list[0].bucket_id == bucket_id {
        Some(list[0].right)
    } else {
        listed_grant(list.skip(1), bucket_id)
    }
}

/// Picks the grant on a bucket out of the grants listed for a user.
pub fn grant_in(list: &Vec<BucketInfoResult>, bucket_id: i64) -> (r: Option<RightType>)
    ensures
        r == listed_grant(list@, bucket_id),
{
    let mut i: usize = 0;
    proof {
        assert(list@.skip(0) =~= list@);
    }
    while i < list.len()
        invariant
            i <= list.len(),
            listed_grant(list@, bucket_id) == listed_grant(list@.skip(i as int), bucket_id),
        decreases list.len() - i,
    {
        proof {
            assert(list@.skip(i as int)[0] == list@[i as int]);
            assert(list@.skip(i as int).skip(1) =~= list@.skip(i as int + 1));
        }
        if list[i].bucket_id == bucket_id {
            return Some(list[i].right);
        }
        i += 1;
    }
    None
}

} // verus!
