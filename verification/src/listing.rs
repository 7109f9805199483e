//! Browsing a directory: which rows to ask the catalog for, and how they
//! are shown. Directories come first, then files fill what is left of the
//! page.

use crate::models::{FileInfo, FileType, ImageType, PathDelTask, PathInfo};
use crate::query::{conditions, Condition, QueryParam, QueryType};
use crate::text::{decimal, decimal_i64};
use vstd::prelude::*;

verus! {

/// What a listing starts with.
#[derive(Clone, Copy, Debug, PartialEq, Eq, Structural)]
pub enum QueryDataType {
    /// Files only: the directories were listed on earlier pages.
    FILE,
    /// Directories, then files.
    DIR,
}

/// A request to list one page of a directory.
#[derive(Debug)]
pub struct PathQuery {
    /// Id of the directory; 0 for the top of the bucket.
    pub path_id: i64,
    pub bucket_id: i64,
    pub page_size: i16,
    pub query_type: QueryDataType,
    /// Only names that start with this text are listed.
    pub search_key: Option<String>,
    /// Only rows with an id above this one are listed.
    pub max_id: i64,
}

/// One line of a listing: a directory or a file.
#[derive(Debug)]
pub struct FileResult {
    pub id: i64,
    pub file_name: String,
    pub file_type: FileType,
    pub bucket_id: i64,
    pub size: u64,
    pub image_type: ImageType,
    pub create_time: String,
}

/// Mathematical model of a [`FileResult`].
pub struct ListingLine {
    pub id: i64,
    pub file_name: Seq<char>,
    pub file_type: FileType,
    pub bucket_id: i64,
    pub size: u64,
    pub image_type: ImageType,
    pub create_time: Seq<char>,
}

impl View for FileResult {
    type V = ListingLine;

    open spec fn view(&self) -> ListingLine {
        ListingLine {
            id: self.id,
            file_name: self.file_name@,
            file_type: self.file_type,
            bucket_id: self.bucket_id,
            size: self.size,
            image_type: self.image_type,
            create_time: self.create_time@,
        }
    }
}

/// The condition that a field equals a value.
pub open spec fn equals(field: Seq<char>, value: Seq<char>) -> Condition {
    Condition { field, query_type: QueryType::Equal, values: seq![value] }
}

/// The condition that a field starts with a value.
pub open spec fn begins(field: Seq<char>, value: Seq<char>) -> Condition {
    Condition { field, query_type: QueryType::LikeEnd, values: seq![value] }
}

/// The conditions common to both halves of a listing: at the top of a
/// bucket only root rows count, and always only rows of the bucket.
pub open spec fn common_conditions(path_id: i64, bucket_id: i64) -> Seq<Condition> {
    let bucket = equals("bucket_id"@, decimal(bucket_id as int));
    if path_id == 0 {
        seq![equals("root"@, "1"@), bucket]
    } else {
        seq![bucket]
    }
}

/// The optional condition on the name.
pub open spec fn name_condition(field: Seq<char>, search_key: Option<Seq<char>>) -> Seq<Condition> {
    match search_key {
        Some(key) => seq![begins(field, key)],
        None => Seq::<Condition>::empty(),
    }
}

/// The conditions for the directories of a listing: the common ones, the
/// name, and the parent.
pub open spec fn dir_conditions(
    path_id: i64,
    bucket_id: i64,
    search_key: Option<Seq<char>>,
) -> Seq<Condition> {
    common_conditions(path_id, bucket_id) + name_condition("path"@, search_key) + seq![
        equals("parent"@, decimal(path_id as int)),
    ]
}

/// The conditions for the files of a listing: the common ones, the
/// directory, and the name.
pub open spec fn file_conditions(
    path_id: i64,
    bucket_id: i64,
    search_key: Option<Seq<char>>,
) -> Seq<Condition> {
    common_conditions(path_id, bucket_id) + seq![equals("path_ref"@, decimal(path_id as int))]
        + name_condition("name"@, search_key)
}

impl PathQuery {
    /// The search key as text.
    pub open spec fn key(&self) -> Option<Seq<char>> {
        match self.search_key {
            Some(k) => Some(k@),
            None => None,
        }
    }

    fn common_params(&self) -> (params: Vec<QueryParam>)
        ensures
            conditions(params@) == common_conditions(self.path_id, self.bucket_id),
    {
        let mut params: Vec<QueryParam> = Vec::new();
        if self.path_id == 0 {
            params.push(QueryParam::eq("root", "1"));
        }
        let bucket = decimal_i64(self.bucket_id);
        params.push(QueryParam::eq("bucket_id", bucket.as_str()));
        proof {
            assert(conditions(params@) =~= common_conditions(self.path_id, self.bucket_id));
        }
        params
    }

    /// The conditions to ask the catalog's directories with.
    pub fn dir_params(&self) -> (params: Vec<QueryParam>)
        ensures
            conditions(params@) == dir_conditions(self.path_id, self.bucket_id, self.key()),
    {
        let mut params = self.common_params();
        let ghost common = params@;
        match &self.search_key {
            Some(key) => {
                params.push(QueryParam::like_end("path", key.as_str()));
            },
            None => {},
        }
        let parent = decimal_i64(self.path_id);
        params.push(QueryParam::eq("parent", parent.as_str()));
        proof {
            assert(conditions(params@) =~= dir_conditions(
                self.path_id,
                self.bucket_id,
                self.key(),
            ));
        }
        params
    }

    /// The conditions to ask the catalog's files with.
    pub fn file_params(&self) -> (params: Vec<QueryParam>)
        ensures
            conditions(params@) == file_conditions(self.path_id, self.bucket_id, self.key()),
    {
        let mut params = self.common_params();
        let dir = decimal_i64(self.path_id);
        params.push(QueryParam::eq("path_ref", dir.as_str()));
        match &self.search_key {
            Some(key) => {
                params.push(QueryParam::like_end("name", key.as_str()));
            },
            None => {},
        }
        proof {
            assert(conditions(params@) =~= file_conditions(
                self.path_id,
                self.bucket_id,
                self.key(),
            ));
        }
        params
    }

    /// Whether the page starts with directories.
    pub fn lists_dirs(&self) -> (r: bool)
        ensures
            r == (self.query_type == QueryDataType::DIR),
    {
        match self.query_type {
            QueryDataType::DIR => true,
            QueryDataType::FILE => false,
        }
    }

    /// The id after which files are listed: the request's cursor while
    /// files are being paged through, 0 on a page that lists directories
    /// first.
    pub fn file_cursor(&self) -> (after: i64)
        ensures
            after == if self.query_type == QueryDataType::FILE {
                self.max_id
            } else {
                0
            },
    {
        match self.query_type {
            QueryDataType::FILE => self.max_id,
            QueryDataType::DIR => 0,
        }
    }

    /// How many files still fit on the page after `listed` directories:
    /// none where the directories fill it.
    pub fn file_limit(&self, listed: usize) -> (r: Option<i16>)
        ensures
            r is Some <==> listed < self.page_size,
            r is Some ==> r->0 == self.page_size - listed,
    {
        if self.page_size > 0 && listed < self.page_size as usize {
            Some(self.page_size - listed as i16)
        } else {
            None
        }
    }
}

/// The line of a listing for a directory of a given weight.
pub fn dir_result(dir: &PathInfo, size: u64) -> (line: FileResult)
    ensures
        line@ == (ListingLine {
            id: dir.id,
            file_name: dir.path@,
            file_type: FileType::DIR,
            bucket_id: dir.bucket_id,
            size,
            image_type: ImageType::NONE,
            create_time: dir.create_time@,
        }),
{
    FileResult {
        id: dir.id,
        file_name: dir.path.clone(),
        file_type: FileType::DIR,
        bucket_id: dir.bucket_id,
        size,
        image_type: ImageType::NONE,
        create_time: dir.create_time.clone(),
    }
}

/// The line of a listing for a file.
pub fn file_result(file: &FileInfo) -> (line: FileResult)
    ensures
        line@ == (ListingLine {
            id: file.id,
            file_name: file.name@,
            file_type: file.file_type,
            bucket_id: file.bucket_id,
            size: file.size,
            image_type: file.image_type,
            create_time: file.create_time@,
        }),
{
    FileResult {
        id: file.id,
        file_name: file.name.clone(),
        file_type: file.file_type,
        bucket_id: file.bucket_id,
        size: file.size,
        image_type: file.image_type,
        create_time: file.create_time.clone(),
    }
}

/// The task that a deleted directory leaves for the sweeper: nothing of
/// it is purged yet.
pub fn delete_task(task_id: i64, dir: &PathInfo) -> (task: PathDelTask)
    ensures
        task == (PathDelTask {
            id: task_id,
            path_id: dir.id,
            del_file_status: false,
            del_path_status: false,
        }),
{
    PathDelTask { id: task_id, path_id: dir.id, del_file_status: false, del_path_status: false }
}

/// Whether a request to make a directory names one: it must give a name,
/// or at least a parent.
pub fn names_directory(parent: i64, name: &str) -> (r: bool)
    ensures
        r == !(parent == 0 && name@.len() == 0),
{
    !(parent == 0 && name.unicode_len() == 0)
}

} // verus!
