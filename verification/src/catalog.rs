//! The file catalog: how a file is recorded, what a directory weighs, and
//! how the files under a directory are listed page by page.

use crate::chunk::{chunk_refs, recorded_size, ChunkRef, FileItemDto};
use crate::errors::{AppError, ErrorKind};
use crate::models::{
    extension_or_empty, FileInfo, FileRecord, FileType, ImageType, MAX_FILE_NAME, MAX_PATH_LEN,
};
use crate::text::{concat_with, lowercase, starts_with};
use vstd::prelude::*;
use vstd::utf8::encode_utf8;

verus! {

/// A file name is valid when it is not empty and takes at most 64 bytes.
pub open spec fn valid_file_name(name: Seq<char>) -> bool {
    1 <= encode_utf8(name).len() <= MAX_FILE_NAME
}

/// A virtual path is valid when it takes at most 128 bytes.
pub open spec fn valid_virtual_path(path: Seq<char>) -> bool {
    encode_utf8(path).len() <= MAX_PATH_LEN
}

/// Checks the name of a file to store.
pub fn validate_file_name(name: &str) -> (r: Result<(), AppError>)
    ensures
        r is Ok <==> valid_file_name(name@),
        r is Err ==> r->Err_0.kind() == ErrorKind::InvalidInput,
{
    let n = name.as_bytes().len();
    if n == 0 {
        Err(AppError::InvalidInput(String::from_str("Invalid file_name value")))
    } else if n > MAX_FILE_NAME {
        Err(AppError::InvalidInput(String::from_str("file name to lang (max=64)")))
    } else {
        Ok(())
    }
}

/// Checks the virtual path that a client names as the destination.
pub fn validate_virtual_path(path: &str) -> (r: Result<(), AppError>)
    ensures
        r is Ok <==> valid_virtual_path(path@),
        r is Err ==> r->Err_0.kind() == ErrorKind::InvalidInput,
{
    if path.as_bytes().len() > MAX_PATH_LEN {
        Err(AppError::InvalidInput(String::from_str("path name to lang (max=128)")))
    } else {
        Ok(())
    }
}

/// Whether a destination given as text means the top of the bucket: the
/// empty path and `/` do.
pub fn is_bucket_root(path: &str) -> (r: bool)
    ensures
        r == (path@.len() == 0 || path@ == seq!['/']),
{
    let chars = crate::text::chars_of(path);
    if chars.len() == 0 {
        true
    } else if chars.len() == 1 && chars[0] == '/' {
        proof {
            assert(path@ =~= seq!['/']);
        }
        true
    } else {
        proof {
            if path@ == seq!['/'] {
                assert(path@.len() == 1 && path@[0] == '/');
            }
        }
        false
    }
}

/// The virtual path of a file: its name at the top of the bucket, else its
/// directory's full path, `/`, and the name.
pub open spec fn file_full_path(path_ref: i64, dir_path: Seq<char>, name: Seq<char>) -> Seq<char> {
    if path_ref == 0 {
        name
    } else {
        dir_path.push('/') + name
    }
}

/// The image format recorded for a file: that of its extension for an
/// image, `NONE` for everything else.
pub open spec fn recorded_image_type(file_type: FileType, name: Seq<char>) -> ImageType {
    if file_type == FileType::IMAGE {
        ImageType::of_extension(lowercase(extension_or_empty(name)))
    } else {
        ImageType::NONE
    }
}

/// The record of a new file.
pub open spec fn new_record(
    bucket_id: i64,
    path_ref: i64,
    dir_path: Seq<char>,
    name: Seq<char>,
    file_type: FileType,
    items: Seq<ChunkRef>,
    size: u64,
    id: i64,
    now: Seq<char>,
) -> FileRecord {
    FileRecord {
        id,
        root: path_ref == 0,
        bucket_id,
        path_ref,
        name,
        full_path: file_full_path(path_ref, dir_path, name),
        file_type,
        items,
        image_type: recorded_image_type(file_type, name),
        size,
        create_time: now,
    }
}

/// Adds up the recorded sizes of a chunk list, unless the sum leaves `u64`.
pub fn items_size(items: &Vec<FileItemDto>) -> (r: Option<u64>)
    ensures
        r is Some <==> recorded_size(chunk_refs(items@)) <= u64::MAX,
        r is Some ==> r->0 == recorded_size(chunk_refs(items@)),
{
    let mut sum: u64 = 0;
    let mut i: usize = 0;
    proof {
        assert(chunk_refs(items@).take(0) =~= Seq::<ChunkRef>::empty());
    }
    while i < items.len()
        invariant
            i <= items.len(),
            sum == recorded_size(chunk_refs(items@).take(i as int)),
        decreases items.len() - i,
    {
        proof {
            let next = chunk_refs(items@).take(i as int + 1);
            assert(next.drop_last() =~= chunk_refs(items@).take(i as int));
            assert(next.last() == items@[i as int]@);
            lemma_recorded_size_grows(chunk_refs(items@), i as int + 1);
        }
        match sum.checked_add(items[i].size as u64) {
            Some(s) => {
                sum = s;
            },
            None => {
                return None;
            },
        }
        i += 1;
    }
    proof {
        assert(chunk_refs(items@).take(items.len() as int) =~= chunk_refs(items@));
    }
    Some(sum)
}

/// The sizes of the first chunks sum to no more than the sizes of all.
pub proof fn lemma_recorded_size_grows(items: Seq<ChunkRef>, k: int)
    requires
        0 <= k <= items.len(),
    ensures
        recorded_size(items.take(k)) <= recorded_size(items),
    decreases items.len() - k,
{
    if k < items.len() {
        lemma_recorded_size_grows(items, k + 1);
        assert(items.take(k + 1).drop_last() =~= items.take(k));
    } else {
        assert(items.take(k) =~= items);
    }
}

/// Makes the record of an uploaded file. The name must be valid and the
/// size must be the sum of the chunk sizes; the record is then
/// well-formed: an empty file has no chunks and size 0.
pub fn record_file(
    bucket_id: i64,
    path_ref: i64,
    dir_path: &str,
    name: &str,
    file_type: FileType,
    items: Vec<FileItemDto>,
    size: u64,
    id: i64,
    now: &str,
) -> (r: Result<FileInfo, AppError>)
    ensures
        r is Ok <==> valid_file_name(name@) && size == recorded_size(chunk_refs(items@)),
        r is Ok ==> r->Ok_0@ == new_record(
            bucket_id,
            path_ref,
            dir_path@,
            name@,
            file_type,
            chunk_refs(items@),
            size,
            id,
            now@,
        ) && r->Ok_0@.well_formed(),
        r is Err ==> r->Err_0.kind() == ErrorKind::InvalidInput,
{
    match validate_file_name(name) {
        Err(e) => {
            return Err(e);
        },
        Ok(_) => {},
    }
    match items_size(&items) {
        Some(sum) => {
            if sum != size {
                return Err(AppError::InvalidInput(String::from_str("size does not match chunks")));
            }
        },
        None => {
            return Err(AppError::InvalidInput(String::from_str("size does not match chunks")));
        },
    }
    let image_type = match file_type {
        FileType::IMAGE => ImageType::get_image_type(name),
        _ => ImageType::NONE,
    };
    let full_path = if path_ref == 0 {
        String::from_str(name)
    } else {
        concat_with(dir_path, '/', name)
    };
    Ok(
        FileInfo {
            id,
            root: path_ref == 0,
            bucket_id,
            path_ref,
            name: String::from_str(name),
            full_path,
            file_type,
            items,
            image_type,
            size,
            create_time: String::from_str(now),
        },
    )
}

/// The models of a list of file records.
pub open spec fn file_records(files: Seq<FileInfo>) -> Seq<FileRecord> {
    Seq::new(files.len(), |i: int| files[i]@)
}

/// Sum of the sizes of the files whose virtual path starts with `prefix`.
pub open spec fn size_under(records: Seq<FileRecord>, prefix: Seq<char>) -> nat
    decreases records.len(),
{
    if records.len() == 0 {
        0
    } else {
        size_under(records.drop_last(), prefix) + if prefix.is_prefix_of(records.last().full_path) {
            records.last().size as nat
        } else {
            0
        }
    }
}

/// The first records weigh no more than all of them.
pub proof fn lemma_size_under_grows(records: Seq<FileRecord>, prefix: Seq<char>, k: int)
    requires
        0 <= k <= records.len(),
    ensures
        size_under(records.take(k), prefix) <= size_under(records, prefix),
    decreases records.len() - k,
{
    if k < records.len() {
        lemma_size_under_grows(records, prefix, k + 1);
        assert(records.take(k + 1).drop_last() =~= records.take(k));
    } else {
        assert(records.take(k) =~= records);
    }
}

/// Adds up the sizes of the files under a path prefix. Fails only where
/// the sum does not fit in 64 bits.
pub fn size_under_prefix(files: &Vec<FileInfo>, prefix: &str) -> (r: Result<u64, AppError>)
    ensures
        r is Ok <==> size_under(file_records(files@), prefix@) <= u64::MAX,
        r is Ok ==> r->Ok_0 == size_under(file_records(files@), prefix@),
        r is Err ==> r->Err_0.kind() == ErrorKind::InternalError,
{
    let mut sum: u64 = 0;
    let mut i: usize = 0;
    proof {
        assert(file_records(files@).take(0) =~= Seq::<FileRecord>::empty());
    }
    while i < files.len()
        invariant
            i <= files.len(),
            sum == size_under(file_records(files@).take(i as int), prefix@),
        decreases files.len() - i,
    {
        proof {
            let next = file_records(files@).take(i as int + 1);
            assert(next.drop_last() =~= file_records(files@).take(i as int));
            assert(next.last() == files@[i as int]@);
            lemma_size_under_grows(file_records(files@), prefix@, i as int + 1);
        }
        if starts_with(files[i].full_path.as_str(), prefix) {
            match sum.checked_add(files[i].size) {
                Some(s) => {
                    sum = s;
                },
                None => {
                    return Err(AppError::InternalError(String::from_str("size overflow")));
                },
            }
        }
        i += 1;
    }
    proof {
        assert(file_records(files@).take(files.len() as int) =~= file_records(files@));
    }
    Ok(sum)
}

/// Whether a listing under `prefix` in a bucket, after the file with id
/// `after_id`, shows this file.
pub open spec fn listed(record: FileRecord, prefix: Seq<char>, after_id: i64, bucket_id: i64) -> bool {
    &&& record.bucket_id == bucket_id
    &&& record.id > after_id
    &&& prefix.is_prefix_of(record.full_path)
}

/// One page of a listing: the first `limit` of the given records that the
/// listing shows, in the order given.
pub open spec fn page_of(
    records: Seq<FileRecord>,
    prefix: Seq<char>,
    after_id: i64,
    bucket_id: i64,
    limit: nat,
) -> Seq<FileRecord>
    decreases records.len(),
{
    if records.len() == 0 || limit == 0 {
        Seq::<FileRecord>::empty()
    } else if listed(records[0], prefix, after_id, bucket_id) {
        seq![records[0]] + page_of(
            records.skip(1),
            prefix,
            after_id,
            bucket_id,
            (limit - 1) as nat,
        )
    } else {
        page_of(records.skip(1), prefix, after_id, bucket_id, limit)
    }
}

/// The ids go up strictly along the list, so no id occurs twice.
pub open spec fn ascending(records: Seq<FileRecord>) -> bool {
    forall|i: int, j: int|
        0 <= i < j < records.len() ==> (#[trigger] records[i]).id < (#[trigger] records[j]).id
}

/// Lists up to `limit` files of a bucket whose virtual path starts with
/// `prefix` and whose id is above `after_id`, in the order in which
/// `files` holds them. On a catalog kept in ascending order of id, this is
/// one page of a keyset-paginated listing.
pub fn list_under_path(
    files: &Vec<FileInfo>,
    prefix: &str,
    after_id: i64,
    bucket_id: i64,
    limit: usize,
) -> (page: Vec<FileInfo>)
    ensures
        file_records(page@) == page_of(
            file_records(files@),
            prefix@,
            after_id,
            bucket_id,
            limit as nat,
        ),
{
    let mut page: Vec<FileInfo> = Vec::new();
    let mut i: usize = 0;
    proof {
        assert(file_records(files@).skip(0) =~= file_records(files@));
        assert(file_records(page@) =~= Seq::<FileRecord>::empty());
    }
    while i < files.len() && page.len() < limit
        invariant
            i <= files.len(),
            page.len() <= limit,
            page_of(file_records(files@), prefix@, after_id, bucket_id, limit as nat)
                == file_records(page@) + page_of(
                file_records(files@).skip(i as int),
                prefix@,
                after_id,
                bucket_id,
                (limit - page.len()) as nat,
            ),
        decreases files.len() - i,
    {
        let ghost rest = file_records(files@).skip(i as int);
        proof {
            assert(rest[0] == files@[i as int]@);
            assert(rest.skip(1) =~= file_records(files@).skip(i as int + 1));
        }
        let file = &files[i];
        if file.bucket_id == bucket_id && file.id > after_id && starts_with(
            file.full_path.as_str(),
            prefix,
        ) {
            let ghost before = page@;
            page.push(file.clone());
            proof {
                assert(file_records(page@) =~= file_records(before) + seq![files@[i as int]@]);
                assert(file_records(before) + (seq![rest[0]] + page_of(
                    rest.skip(1),
                    prefix@,
                    after_id,
                    bucket_id,
                    (limit - page.len()) as nat,
                )) =~= file_records(page@) + page_of(
                    rest.skip(1),
                    prefix@,
                    after_id,
                    bucket_id,
                    (limit - page.len()) as nat,
                ));
            }
        }
        i += 1;
    }
    proof {
        let rest = file_records(files@).skip(i as int);
        assert(page_of(rest, prefix@, after_id, bucket_id, (limit - page.len()) as nat)
            =~= Seq::<FileRecord>::empty());
        assert(file_records(page@) + Seq::<FileRecord>::empty() =~= file_records(page@));
    }
    page
}

/// Where a listing goes on after a page: after the id of the page's last
/// file. An empty page ends the listing.
pub fn next_cursor(page: &Vec<FileInfo>) -> (r: Option<i64>)
    ensures
        page@.len() == 0 ==> r is None,
        page@.len() > 0 ==> r == Some(page@.last().id),
{
    if page.len() == 0 {
        None
    } else {
        Some(page[page.len() - 1].id)
    }
}

/// The whole listing: all of the given records that a listing under
/// `prefix` in a bucket, after the file with id `after_id`, shows, in the
/// order given.
pub open spec fn listing(
    records: Seq<FileRecord>,
    prefix: Seq<char>,
    after_id: i64,
    bucket_id: i64,
) -> Seq<FileRecord>
    decreases records.len(),
{
    if records.len() == 0 {
        Seq::<FileRecord>::empty()
    } else if listed(records[0], prefix, after_id, bucket_id) {
        seq![records[0]] + listing(records.skip(1), prefix, after_id, bucket_id)
    } else {
        listing(records.skip(1), prefix, after_id, bucket_id)
    }
}

/// All ids of the list are above `floor`.
pub open spec fn all_above(records: Seq<FileRecord>, floor: i64) -> bool {
    forall|i: int| 0 <= i < records.len() ==> (#[trigger] records[i]).id > floor
}

proof fn lemma_ascending_tail(records: Seq<FileRecord>)
    requires
        ascending(records),
        records.len() > 0,
    ensures
        ascending(records.skip(1)),
        all_above(records.skip(1), records[0].id),
{
    assert forall|i: int, j: int| 0 <= i < j < records.skip(1).len() implies (
    #[trigger] records.skip(1)[i]).id < (#[trigger] records.skip(1)[j]).id by {
        assert(records.skip(1)[i] == records[i + 1]);
        assert(records.skip(1)[j] == records[j + 1]);
    }
    assert forall|i: int| 0 <= i < records.skip(1).len() implies (#[trigger] records.skip(
        1,
    )[i]).id > records[0].id by {
        assert(records.skip(1)[i] == records[i + 1]);
    }
}

proof fn lemma_above_tail(records: Seq<FileRecord>, floor: i64)
    requires
        all_above(records, floor),
        records.len() > 0,
    ensures
        all_above(records.skip(1), floor),
{
    assert forall|i: int| 0 <= i < records.skip(1).len() implies (#[trigger] records.skip(
        1,
    )[i]).id > floor by {
        assert(records.skip(1)[i] == records[i + 1]);
    }
}

/// Among records whose ids are above two cursors, both cursors list the
/// same.
proof fn lemma_listing_above(
    records: Seq<FileRecord>,
    prefix: Seq<char>,
    a: i64,
    b: i64,
    bucket_id: i64,
)
    requires
        all_above(records, a),
        all_above(records, b),
    ensures
        listing(records, prefix, a, bucket_id) == listing(records, prefix, b, bucket_id),
    decreases records.len(),
{
    if records.len() > 0 {
        lemma_above_tail(records, a);
        lemma_above_tail(records, b);
        lemma_listing_above(records.skip(1), prefix, a, b, bucket_id);
    }
}

/// The files on a page have ids above every bound below all records.
proof fn lemma_page_above(
    records: Seq<FileRecord>,
    prefix: Seq<char>,
    after_id: i64,
    bucket_id: i64,
    limit: nat,
    floor: i64,
)
    requires
        all_above(records, floor),
    ensures
        all_above(page_of(records, prefix, after_id, bucket_id, limit), floor),
    decreases records.len(),
{
    if records.len() > 0 && limit > 0 {
        lemma_above_tail(records, floor);
        if listed(records[0], prefix, after_id, bucket_id) {
            lemma_page_above(records.skip(1), prefix, after_id, bucket_id, (limit - 1) as nat, floor);
        } else {
            lemma_page_above(records.skip(1), prefix, after_id, bucket_id, limit, floor);
        }
    }
}

/// A page of records in ascending order of id is in ascending order of id,
/// and every file on it is one that the listing shows.
pub proof fn lemma_page_ascending(
    records: Seq<FileRecord>,
    prefix: Seq<char>,
    after_id: i64,
    bucket_id: i64,
    limit: nat,
)
    requires
        ascending(records),
    ensures
        ascending(page_of(records, prefix, after_id, bucket_id, limit)),
        page_of(records, prefix, after_id, bucket_id, limit).len() <= limit,
        forall|i: int|
            0 <= i < page_of(records, prefix, after_id, bucket_id, limit).len() ==> listed(
                #[trigger] page_of(records, prefix, after_id, bucket_id, limit)[i],
                prefix,
                after_id,
                bucket_id,
            ),
    decreases records.len(),
{
    if records.len() > 0 && limit > 0 {
        let tail = records.skip(1);
        lemma_ascending_tail(records);
        if listed(records[0], prefix, after_id, bucket_id) {
            let rest = page_of(tail, prefix, after_id, bucket_id, (limit - 1) as nat);
            lemma_page_ascending(tail, prefix, after_id, bucket_id, (limit - 1) as nat);
            lemma_page_above(tail, prefix, after_id, bucket_id, (limit - 1) as nat, records[0].id);
            let page = page_of(records, prefix, after_id, bucket_id, limit);
            assert(page =~= seq![records[0]] + rest);
            assert forall|i: int, j: int| 0 <= i < j < page.len() implies (#[trigger] page[i]).id < (
            #[trigger] page[j]).id by {
                assert(page[j] == rest[j - 1]);
                if i > 0 {
                    assert(page[i] == rest[i - 1]);
                }
            }
            assert forall|i: int| 0 <= i < page.len() implies listed(
                #[trigger] page[i],
                prefix,
                after_id,
                bucket_id,
            ) by {
                if i > 0 {
                    assert(page[i] == rest[i - 1]);
                }
            }
        } else {
            lemma_page_ascending(tail, prefix, after_id, bucket_id, limit);
        }
    }
}

/// An empty page of a positive size means that the listing has nothing
/// more to show.
pub proof fn lemma_empty_page_ends(
    records: Seq<FileRecord>,
    prefix: Seq<char>,
    after_id: i64,
    bucket_id: i64,
    limit: nat,
)
    requires
        limit >= 1,
        page_of(records, prefix, after_id, bucket_id, limit).len() == 0,
    ensures
        listing(records, prefix, after_id, bucket_id).len() == 0,
    decreases records.len(),
{
    if records.len() > 0 {
        if listed(records[0], prefix, after_id, bucket_id) {
            assert(page_of(records, prefix, after_id, bucket_id, limit)[0] == records[0]);
        } else {
            lemma_empty_page_ends(records.skip(1), prefix, after_id, bucket_id, limit);
        }
    }
}

/// On records in ascending order of id, a page that holds anything is
/// the start of what remains of the listing, and what remains after it is
/// the listing after the id of the page's last file: paging by that
/// cursor neither skips a file nor shows one twice.
pub proof fn lemma_page_then_rest(
    records: Seq<FileRecord>,
    prefix: Seq<char>,
    after_id: i64,
    bucket_id: i64,
    limit: nat,
)
    requires
        ascending(records),
        page_of(records, prefix, after_id, bucket_id, limit).len() > 0,
    ensures
        listing(records, prefix, after_id, bucket_id) == page_of(
            records,
            prefix,
            after_id,
            bucket_id,
            limit,
        ) + listing(
            records,
            prefix,
            page_of(records, prefix, after_id, bucket_id, limit).last().id,
            bucket_id,
        ),
        page_of(records, prefix, after_id, bucket_id, limit).last().id > after_id,
    decreases records.len(),
{
    let page = page_of(records, prefix, after_id, bucket_id, limit);
    let last_id = page.last().id;
    let tail = records.skip(1);
    lemma_ascending_tail(records);
    if listed(records[0], prefix, after_id, bucket_id) {
        let tail_page = page_of(tail, prefix, after_id, bucket_id, (limit - 1) as nat);
        assert(page =~= seq![records[0]] + tail_page);
        if tail_page.len() == 0 {
            assert(last_id == records[0].id);
            assert forall|i: int| 0 <= i < tail.len() implies (#[trigger] tail[i]).id
                > after_id by {}
            lemma_listing_above(tail, prefix, after_id, last_id, bucket_id);
            assert(listing(records, prefix, after_id, bucket_id) =~= page + listing(
                records,
                prefix,
                last_id,
                bucket_id,
            ));
        } else {
            assert(page.last() == tail_page.last());
            lemma_page_then_rest(tail, prefix, after_id, bucket_id, (limit - 1) as nat);
            lemma_page_above(tail, prefix, after_id, bucket_id, (limit - 1) as nat, records[0].id);
            assert(tail_page[tail_page.len() - 1].id > records[0].id);
            assert(listing(records, prefix, after_id, bucket_id) =~= page + listing(
                records,
                prefix,
                last_id,
                bucket_id,
            ));
        }
    } else {
        let tail_page = page_of(tail, prefix, after_id, bucket_id, limit);
        assert(page == tail_page);
        lemma_page_then_rest(tail, prefix, after_id, bucket_id, limit);
        lemma_page_above(tail, prefix, after_id, bucket_id, limit, records[0].id);
        assert(tail_page[tail_page.len() - 1].id > records[0].id);
    }
}

/// The file records of all buckets, held in memory in ascending order of
/// id.
#[derive(Debug)]
pub struct FileTable {
    files: Vec<FileInfo>,
}

impl View for FileTable {
    type V = Seq<FileRecord>;

    closed spec fn view(&self) -> Seq<FileRecord> {
        file_records(self.files@)
    }
}

impl FileTable {
    /// The records are in ascending order of id. Every table is made
    /// so and kept so.
    pub open spec fn well_formed(&self) -> bool {
        ascending(self@)
    }

    /// A table without files.
    pub fn new() -> (out: Self)
        ensures
            out@ == Seq::<FileRecord>::empty(),
            out.well_formed(),
    {
        let out = FileTable { files: Vec::new() };
        proof {
            assert(out@ =~= Seq::<FileRecord>::empty());
        }
        out
    }

    /// Number of files.
    pub fn len(&self) -> (n: usize)
        ensures
            n == self@.len(),
    {
        self.files.len()
    }

    /// The records, in ascending order of id.
    pub fn files(&self) -> (files: &Vec<FileInfo>)
        ensures
            file_records(files@) == self@,
    {
        &self.files
    }

    /// Lists all files of a bucket under a path prefix with an id above
    /// `after_id`, fetching them page by page: each page starts after
    /// the last file of the page before, and an empty page ends the
    /// listing. The result is the whole listing, each file once and in
    /// ascending order of id, whatever the page size; a page size of 0
    /// counts as 1.
    pub fn collect_under_path(
        &self,
        prefix: &str,
        after_id: i64,
        bucket_id: i64,
        page_size: usize,
    ) -> (all: Vec<FileInfo>)
        requires
            self.well_formed(),
        ensures
            file_records(all@) == listing(self@, prefix@, after_id, bucket_id),
    {
        let size = if page_size == 0 {
            1
        } else {
            page_size
        };
        collect_pages(&self.files, prefix, after_id, bucket_id, size)
    }

    /// Adds a record at its place in the order, unless the table holds
    /// one with the same id: then nothing changes and `false` is returned.
    pub fn insert(&mut self, file: FileInfo) -> (added: bool)
        requires
            old(self).well_formed(),
        ensures
            final(self).well_formed(),
            added == (forall|i: int| 0 <= i < old(self)@.len() ==> old(self)@[i].id != file.id),
            !added ==> final(self)@ == old(self)@,
            added ==> exists|at: int|
                0 <= at <= old(self)@.len() && final(self)@ == #[trigger] old(self)@.insert(
                    at,
                    file@,
                ),
    {
        let mut at: usize = 0;
        while at < self.files.len() && self.files[at].id < file.id
            invariant
                at <= self.files.len(),
                *self == *old(self),
                ascending(self@),
                forall|k: int| 0 <= k < at ==> (#[trigger] self@[k]).id < file.id,
            decreases self.files.len() - at,
        {
            at += 1;
        }
        if at < self.files.len() && self.files[at].id == file.id {
            proof {
                assert(self@[at as int].id == file.id);
            }
            return false;
        }
        let ghost before = self@;
        let ghost model = file@;
        self.files.insert(at, file);
        proof {
            assert(self@ =~= before.insert(at as int, model));
            assert forall|k: int| at <= k < before.len() implies (#[trigger] before[k]).id
                > model.id by {
                assert(before[at as int].id <= before[k].id);
            }
            assert forall|i: int, j: int| 0 <= i < j < self@.len() implies (#[trigger] self@[i]).id
                < (#[trigger] self@[j]).id by {
                if i < at && j == at {
                    assert(self@[i] == before[i]);
                } else if i < at && j > at {
                    assert(self@[i] == before[i] && self@[j] == before[j - 1]);
                } else if i < at {
                    assert(self@[i] == before[i] && self@[j] == before[j]);
                } else if i == at {
                    assert(self@[j] == before[j - 1]);
                } else {
                    assert(self@[i] == before[i - 1] && self@[j] == before[j - 1]);
                }
            }
            assert forall|i: int| 0 <= i < before.len() implies before[i].id != model.id by {
                if i < at {
                } else {
                }
            }
        }
        true
    }
}

fn collect_pages(
    files: &Vec<FileInfo>,
    prefix: &str,
    after_id: i64,
    bucket_id: i64,
    page_size: usize,
) -> (all: Vec<FileInfo>)
    requires
        ascending(file_records(files@)),
        page_size >= 1,
    ensures
        file_records(all@) == listing(file_records(files@), prefix@, after_id, bucket_id),
{
    let mut all: Vec<FileInfo> = Vec::new();
    let mut after: i64 = after_id;
    let ghost records = file_records(files@);
    proof {
        assert(file_records(all@) + listing(records, prefix@, after, bucket_id) =~= listing(
            records,
            prefix@,
            after,
            bucket_id,
        ));
    }
    loop
        invariant
            records == file_records(files@),
            ascending(records),
            page_size >= 1,
            listing(records, prefix@, after_id, bucket_id) == file_records(all@) + listing(
                records,
                prefix@,
                after,
                bucket_id,
            ),
        decreases listing(records, prefix@, after, bucket_id).len(),
    {
        let mut page = list_under_path(files, prefix, after, bucket_id, page_size);
        match next_cursor(&page) {
            None => {
                proof {
                    lemma_empty_page_ends(records, prefix@, after, bucket_id, page_size as nat);
                    assert(file_records(all@) + Seq::<FileRecord>::empty() =~= file_records(all@));
                }
                return all;
            },
            Some(cursor) => {
                proof {
                    lemma_page_then_rest(records, prefix@, after, bucket_id, page_size as nat);
                    assert(file_records(page@).last() == page@.last()@);
                }
                let ghost before = all@;
                let ghost fetched = page@;
                all.append(&mut page);
                proof {
                    assert(file_records(all@) =~= file_records(before) + file_records(fetched));
                    assert((file_records(before) + file_records(fetched)) + listing(
                        records,
                        prefix@,
                        cursor,
                        bucket_id,
                    ) =~= file_records(before) + (file_records(fetched) + listing(
                        records,
                        prefix@,
                        cursor,
                        bucket_id,
                    )));
                }
                after = cursor;
            },
        }
    }
}

} // verus!
