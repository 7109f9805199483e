//! Getting files back: a file is reassembled from its chunks, and a whole
//! directory is laid out in a scratch area to be packed into one archive.

use crate::catalog::file_records;
use crate::chunk::{chunk_refs, concat_chunks, ChunkRef, FileItemDto};
use crate::errors::{AppError, ErrorKind};
use crate::models::{clone_items, FileInfo, FileRecord, PathInfo};
use crate::text::{chars_of, find_last, last_index_of, same_text, string_of_range};
use vstd::prelude::*;

verus! {

/// What came of reading one chunk file.
#[derive(Debug)]
pub enum ChunkRead {
    /// The file's bytes.
    Data(Vec<u8>),
    /// There is no such file.
    Missing,
    /// The file is there but could not be read.
    Failed(String),
}

/// Mathematical model of a [`ChunkRead`].
pub enum ReadModel {
    Data(Seq<u8>),
    Missing,
    Failed(Seq<char>),
}

impl View for ChunkRead {
    type V = ReadModel;

    open spec fn view(&self) -> ReadModel {
        match self {
            ChunkRead::Data(bytes) => ReadModel::Data(bytes@),
            ChunkRead::Missing => ReadModel::Missing,
            ChunkRead::Failed(m) => ReadModel::Failed(m@),
        }
    }
}

/// The models of a list of chunk reads.
pub open spec fn read_models(reads: Seq<ChunkRead>) -> Seq<ReadModel> {
    Seq::new(reads.len(), |i: int| reads[i]@)
}

/// What is wrong with one chunk as read, if anything: a missing file is a
/// missing chunk; a file that cannot be read, or that does not hold the
/// number of bytes recorded for the chunk, is a storage error.
pub open spec fn chunk_fault(item: ChunkRef, read: ReadModel) -> Option<ErrorKind> {
    match read {
        ReadModel::Data(bytes) => if bytes.len() == item.size {
            None
        } else {
            Some(ErrorKind::StorageIO)
        },
        ReadModel::Missing => Some(ErrorKind::ChunkMissing),
        ReadModel::Failed(_) => Some(ErrorKind::StorageIO),
    }
}

/// Checks one chunk as read against its record.
pub fn check_chunk(item: &FileItemDto, read: &ChunkRead) -> (r: Result<(), AppError>)
    ensures
        r is Ok <==> chunk_fault(item@, read@) is None,
        r is Err ==> chunk_fault(item@, read@) == Some(r->Err_0.kind()),
{
    match read {
        ChunkRead::Data(bytes) => {
            if bytes.len() == item.size as usize {
                Ok(())
            } else {
                Err(AppError::StorageIO(String::from_str("chunk size mismatch")))
            }
        },
        ChunkRead::Missing => Err(AppError::ChunkMissing(item.path.clone())),
        ChunkRead::Failed(m) => Err(AppError::StorageIO(m.clone())),
    }
}

/// The bytes of a file, from its chunks as read in list order. The first
/// chunk with a fault decides the error. Without a fault, every chunk of
/// the list must have been read, no more and no less.
pub open spec fn assembled(items: Seq<ChunkRef>, reads: Seq<ReadModel>) -> Result<
    Seq<u8>,
    ErrorKind,
>
    decreases items.len(),
{
    if items.len() == 0 && reads.len() == 0 {
        Ok(Seq::<u8>::empty())
    } else if items.len() == 0 || reads.len() == 0 {
        Err(ErrorKind::StorageIO)
    } else {
        match chunk_fault(items[0], reads[0]) {
            Some(kind) => Err(kind),
            None => match assembled(items.skip(1), reads.skip(1)) {
                Ok(rest) => Ok(reads[0]->Data_0 + rest),
                Err(kind) => Err(kind),
            },
        }
    }
}

/// The bytes of a file of a recorded size: as [`assembled`], and a
/// storage error if they are not as many as recorded.
pub open spec fn reconstructed(size: u64, items: Seq<ChunkRef>, reads: Seq<ReadModel>) -> Result<
    Seq<u8>,
    ErrorKind,
> {
    match assembled(items, reads) {
        Ok(bytes) => if bytes.len() == size {
            Ok(bytes)
        } else {
            Err(ErrorKind::StorageIO)
        },
        Err(kind) => Err(kind),
    }
}

/// Chunks read back as they were written, under a chunk list that records
/// their sizes, assemble to the chunks laid end to end.
pub proof fn lemma_assembled_written(items: Seq<ChunkRef>, chunks: Seq<Seq<u8>>)
    requires
        items.len() == chunks.len(),
        forall|i: int| 0 <= i < items.len() ==> (#[trigger] items[i]).size == chunks[i].len(),
    ensures
        assembled(items, Seq::new(chunks.len(), |i: int| ReadModel::Data(chunks[i]))) == Ok::<
            Seq<u8>,
            ErrorKind,
        >(concat_chunks(chunks)),
    decreases items.len(),
{
    let reads = Seq::new(chunks.len(), |i: int| ReadModel::Data(chunks[i]));
    if items.len() > 0 {
        let rest_reads = Seq::new(chunks.skip(1).len(), |i: int| ReadModel::Data(chunks.skip(1)[i]));
        assert(reads.skip(1) =~= rest_reads);
        assert forall|i: int| 0 <= i < items.skip(1).len() implies (#[trigger] items.skip(
            1,
        )[i]).size == chunks.skip(1)[i].len() by {
            assert(items.skip(1)[i] == items[i + 1]);
        }
        lemma_assembled_written(items.skip(1), chunks.skip(1));
        lemma_concat_front(chunks);
    }
}

/// Laying chunks end to end starts with the first chunk.
pub proof fn lemma_concat_front(chunks: Seq<Seq<u8>>)
    requires
        chunks.len() > 0,
    ensures
        concat_chunks(chunks) == chunks[0] + concat_chunks(chunks.skip(1)),
    decreases chunks.len(),
{
    if chunks.len() == 1 {
        assert(chunks.drop_last() =~= Seq::<Seq<u8>>::empty());
        assert(chunks.skip(1) =~= Seq::<Seq<u8>>::empty());
        assert(concat_chunks(chunks) =~= chunks[0] + concat_chunks(chunks.skip(1)));
    } else {
        lemma_concat_front(chunks.drop_last());
        assert(chunks.drop_last().skip(1) =~= chunks.skip(1).drop_last());
        assert(chunks.drop_last()[0] == chunks[0]);
        assert(chunks.skip(1).last() == chunks.last());
        assert(concat_chunks(chunks) =~= chunks[0] + concat_chunks(chunks.skip(1)));
    }
}

/// Reassembles a file from its chunks as read, in list order.
pub fn reconstruct(file: &FileInfo, reads: &Vec<ChunkRead>) -> (r: Result<Vec<u8>, AppError>)
    ensures
        match reconstructed(file.size, chunk_refs(file.items@), read_models(reads@)) {
            Ok(bytes) => r is Ok && r->Ok_0@ == bytes,
            Err(kind) => r is Err && r->Err_0.kind() == kind,
        },
{
    let mut bytes: Vec<u8> = Vec::new();
    let mut i: usize = 0;
    let ghost items = chunk_refs(file.items@);
    let ghost models = read_models(reads@);
    proof {
        assert(items.skip(0) =~= items);
        assert(models.skip(0) =~= models);
        assert(forall|rest: Seq<u8>| Seq::<u8>::empty() + rest =~= rest);
    }
    while i < file.items.len() && i < reads.len()
        invariant
            i <= file.items.len(),
            i <= reads.len(),
            items == chunk_refs(file.items@),
            models == read_models(reads@),
            match assembled(items.skip(i as int), models.skip(i as int)) {
                Ok(rest) => assembled(items, models) == Ok::<Seq<u8>, ErrorKind>(bytes@ + rest),
                Err(kind) => assembled(items, models) == Err::<Seq<u8>, ErrorKind>(kind),
            },
        decreases file.items.len() - i,
    {
        proof {
            assert(items.skip(i as int)[0] == file.items@[i as int]@);
            assert(models.skip(i as int)[0] == reads@[i as int]@);
            assert(items.skip(i as int).skip(1) =~= items.skip(i as int + 1));
            assert(models.skip(i as int).skip(1) =~= models.skip(i as int + 1));
        }
        match check_chunk(&file.items[i], &reads[i]) {
            Err(e) => {
                return Err(e);
            },
            Ok(_) => {},
        }
        match &reads[i] {
            ChunkRead::Data(data) => {
                let ghost before = bytes@;
                bytes.extend_from_slice(data.as_slice());
                proof {
                    assert(bytes@ =~= before + data@);
                    assert(forall|rest: Seq<u8>| (before + data@) + rest =~= before + (data@
                        + rest));
                }
            },
            _ => {},
        }
        i += 1;
    }
    proof {
        assert(forall|b: Seq<u8>| b + Seq::<u8>::empty() =~= b);
    }
    if i < file.items.len() || i < reads.len() {
        return Err(AppError::StorageIO(String::from_str("chunk list and chunks read differ")));
    }
    if bytes.len() as u64 != file.size {
        return Err(AppError::StorageIO(String::from_str("file size mismatch")));
    }
    Ok(bytes)
}

/// The directory part of a virtual path: what stands before its last `/`;
/// empty where it has none.
pub open spec fn dir_of(full_path: Seq<char>) -> Seq<char> {
    let slash = last_index_of(full_path, '/');
    if slash < 0 {
        Seq::<char>::empty()
    } else {
        full_path.take(slash)
    }
}

/// Executable form of [`dir_of`].
pub fn parent_dir(full_path: &str) -> (dir: String)
    ensures
        dir@ == dir_of(full_path@),
{
    let chars = chars_of(full_path);
    proof {
        assert(chars@.take(chars@.len() as int) =~= chars@);
        crate::text::lemma_last_index_of(chars@, '/');
    }
    match find_last(chars.as_slice(), chars.len(), '/') {
        Some(slash) => {
            proof {
                assert(chars@.subrange(0, slash as int) =~= chars@.take(slash as int));
            }
            string_of_range(chars.as_slice(), 0, slash)
        },
        None => String::new(),
    }
}

/// The prefix that the virtual paths of all files below a directory start
/// with: the directory's full path and `/`.
pub fn subtree_prefix(dir: &PathInfo) -> (prefix: String)
    ensures
        prefix@ == dir@.full_path.push('/'),
{
    let mut prefix = dir.full_path.clone();
    prefix.push('/');
    prefix
}

/// Whether a component of a path may be used below a scratch root: it is
/// not empty, it is neither `.` nor `..`, and it holds no `\`.
pub open spec fn safe_component(part: Seq<char>) -> bool {
    &&& part.len() > 0
    &&& part != seq!['.']
    &&& part != seq!['.', '.']
    &&& !part.contains('\\')
}

/// Whether a virtual path stays below the scratch root that it is joined
/// to: every component between its `/` is safe. So it does not start at
/// the file system's root and never steps up.
pub open spec fn stays_below(path: Seq<char>) -> bool {
    forall|i: int|
        0 <= i < crate::text::split(path, '/').len() ==> safe_component(
            #[trigger] crate::text::split(path, '/')[i],
        )
}

fn is_safe_component(part: &str) -> (r: bool)
    ensures
        r == safe_component(part@),
{
    let chars = chars_of(part);
    if chars.len() == 0 {
        return false;
    }
    if chars.len() == 1 && chars[0] == '.' {
        proof {
            assert(part@ =~= seq!['.']);
        }
        return false;
    }
    if chars.len() == 2 && chars[0] == '.' && chars[1] == '.' {
        proof {
            assert(part@ =~= seq!['.', '.']);
        }
        return false;
    }
    proof {
        if part@ == seq!['.'] {
            assert(part@.len() == 1 && part@[0] == '.');
        }
        if part@ == seq!['.', '.'] {
            assert(part@.len() == 2 && part@[0] == '.' && part@[1] == '.');
        }
    }
    let mut i: usize = 0;
    while i < chars.len()
        invariant
            i <= chars.len(),
            chars@ == part@,
            forall|k: int| 0 <= k < i ==> chars@[k] != '\\',
        decreases chars.len() - i,
    {
        if chars[i] == '\\' {
            proof {
                assert(part@[i as int] == '\\');
            }
            return false;
        }
        i += 1;
    }
    true
}

/// Executable form of [`stays_below`].
pub fn is_below_root(path: &str) -> (r: bool)
    ensures
        r == stays_below(path@),
{
    let parts = crate::text::split_on(path, '/');
    let mut i: usize = 0;
    while i < parts.len()
        invariant
            i <= parts.len(),
            crate::text::texts(parts@) == crate::text::split(path@, '/'),
            forall|k: int|
                0 <= k < i ==> safe_component(#[trigger] crate::text::split(path@, '/')[k]),
        decreases parts.len() - i,
    {
        proof {
            assert(crate::text::texts(parts@)[i as int] == parts@[i as int]@);
        }
        if !is_safe_component(parts[i].as_str()) {
            return false;
        }
        i += 1;
    }
    true
}

/// One thing to do in the scratch area.
#[derive(Debug)]
pub enum PackageStep {
    /// Make this directory, and those above it, below the scratch root.
    EnsureDir { dir: String },
    /// Write the file at this path below the scratch root, from these
    /// chunks in order.
    WriteFile { path: String, size: u64, items: Vec<FileItemDto> },
}

/// Mathematical model of a [`PackageStep`].
pub enum StepModel {
    EnsureDir { dir: Seq<char> },
    WriteFile { path: Seq<char>, size: u64, items: Seq<ChunkRef> },
}

impl View for PackageStep {
    type V = StepModel;

    open spec fn view(&self) -> StepModel {
        match self {
            PackageStep::EnsureDir { dir } => StepModel::EnsureDir { dir: dir@ },
            PackageStep::WriteFile { path, size, items } => StepModel::WriteFile {
                path: path@,
                size: *size,
                items: chunk_refs(items@),
            },
        }
    }
}

/// The models of a list of steps.
pub open spec fn step_models(steps: Seq<PackageStep>) -> Seq<StepModel> {
    Seq::new(steps.len(), |i: int| steps[i]@)
}

/// The directories of the given files, each once, in order of first
/// occurrence.
pub open spec fn distinct_dirs(files: Seq<FileRecord>) -> Seq<Seq<char>>
    decreases files.len(),
{
    if files.len() == 0 {
        Seq::<Seq<char>>::empty()
    } else {
        let before = distinct_dirs(files.drop_last());
        let dir = dir_of(files.last().full_path);
        if before.contains(dir) {
            before
        } else {
            before.push(dir)
        }
    }
}

/// The step that writes a file.
pub open spec fn write_step(file: FileRecord) -> StepModel {
    StepModel::WriteFile { path: file.full_path, size: file.size, items: file.items }
}

/// The plan to lay out the given files, in their order: every file is
/// written at its virtual path; before the first file of a directory the
/// directory is made, and no directory is made twice.
pub open spec fn package_plan(files: Seq<FileRecord>) -> Seq<StepModel>
    decreases files.len(),
{
    if files.len() == 0 {
        Seq::<StepModel>::empty()
    } else {
        let before = package_plan(files.drop_last());
        let dir = dir_of(files.last().full_path);
        if distinct_dirs(files.drop_last()).contains(dir) {
            before.push(write_step(files.last()))
        } else {
            before.push(StepModel::EnsureDir { dir }).push(write_step(files.last()))
        }
    }
}

/// The steps of a plan that write a file.
pub open spec fn writes_of(steps: Seq<StepModel>) -> Seq<StepModel> {
    steps.filter(|s: StepModel| s is WriteFile)
}

/// The directories that a plan makes, in order.
pub open spec fn dirs_made(steps: Seq<StepModel>) -> Seq<Seq<char>>
    decreases steps.len(),
{
    if steps.len() == 0 {
        Seq::<Seq<char>>::empty()
    } else {
        match steps.last() {
            StepModel::EnsureDir { dir } => dirs_made(steps.drop_last()).push(dir),
            _ => dirs_made(steps.drop_last()),
        }
    }
}

/// No directory occurs twice among the distinct directories.
pub proof fn lemma_distinct_dirs(files: Seq<FileRecord>)
    ensures
        distinct_dirs(files).no_duplicates(),
        forall|i: int|
            0 <= i < files.len() ==> distinct_dirs(files).contains(
                dir_of((#[trigger] files[i]).full_path),
            ),
    decreases files.len(),
{
    if files.len() > 0 {
        let before = distinct_dirs(files.drop_last());
        let dir = dir_of(files.last().full_path);
        lemma_distinct_dirs(files.drop_last());
        if !before.contains(dir) {
            assert(before.push(dir)[before.len() as int] == dir);
            assert forall|i: int, j: int|
                0 <= i < before.push(dir).len() && 0 <= j < before.push(dir).len() && i
                    != j implies before.push(dir)[i] != before.push(dir)[j] by {
                if i < before.len() && j < before.len() {
                } else if i < before.len() {
                    assert(before.contains(before[i]));
                } else {
                    assert(before.contains(before[j]));
                }
            }
        }
        assert forall|i: int| 0 <= i < files.len() implies distinct_dirs(files).contains(
            dir_of((#[trigger] files[i]).full_path),
        ) by {
            if i < files.len() - 1 {
                assert(files.drop_last()[i] == files[i]);
                let d = dir_of(files[i].full_path);
                let k = choose|k: int| 0 <= k < before.len() && before[k] == d;
                assert(distinct_dirs(files)[k] == d);
            } else {
                if before.contains(dir) {
                } else {
                    assert(before.push(dir)[before.len() as int] == dir);
                }
            }
        }
    }
}

/// A plan makes each directory of its files exactly once, and writes each
/// file exactly once, in the order of the files and at the file's own
/// virtual path, with the file's size and chunks.
pub proof fn lemma_plan_mirrors(files: Seq<FileRecord>)
    ensures
        dirs_made(package_plan(files)) == distinct_dirs(files),
        dirs_made(package_plan(files)).no_duplicates(),
        writes_of(package_plan(files)) == Seq::new(files.len(), |i: int| write_step(files[i])),
    decreases files.len(),
{
    lemma_distinct_dirs(files);
    let expected = Seq::new(files.len(), |i: int| write_step(files[i]));
    if files.len() == 0 {
        assert(writes_of(package_plan(files)) =~= expected);
    } else {
        let head = files.drop_last();
        let before = package_plan(head);
        let dir = dir_of(files.last().full_path);
        let write = write_step(files.last());
        let is_write = |s: StepModel| s is WriteFile;
        lemma_plan_mirrors(head);
        let head_expected = Seq::new(head.len(), |i: int| write_step(head[i]));
        assert(expected =~= head_expected.push(write));
        if distinct_dirs(head).contains(dir) {
            assert(package_plan(files) == before.push(write));
            assert(before.push(write).drop_last() =~= before);
            assert(before.push(write).last() == write);
            assert(dirs_made(before.push(write)) == dirs_made(before));
            lemma_filter_push(before, write);
        } else {
            let mid = before.push(StepModel::EnsureDir { dir });
            assert(package_plan(files) == mid.push(write));
            assert(mid.drop_last() =~= before);
            assert(mid.last() == StepModel::EnsureDir { dir });
            assert(mid.push(write).drop_last() =~= mid);
            assert(mid.push(write).last() == write);
            assert(dirs_made(mid) == dirs_made(before).push(dir));
            assert(dirs_made(mid.push(write)) == dirs_made(mid));
            lemma_filter_push(before, StepModel::EnsureDir { dir });
            lemma_filter_push(mid, write);
        }
    }
}

/// Filtering for the writing steps after one more step.
proof fn lemma_filter_push(steps: Seq<StepModel>, next: StepModel)
    ensures
        writes_of(steps.push(next)) == if next is WriteFile {
            writes_of(steps).push(next)
        } else {
            writes_of(steps)
        },
{
    let is_write = |s: StepModel| s is WriteFile;
    reveal(Seq::filter);
    assert(steps.push(next).drop_last() =~= steps);
}

/// Whether a list of texts holds this text.
pub fn holds_text(list: &Vec<String>, text: &str) -> (r: bool)
    ensures
        r == crate::text::texts(list@).contains(text@),
{
    let mut i: usize = 0;
    while i < list.len()
        invariant
            i <= list.len(),
            forall|k: int| 0 <= k < i ==> crate::text::texts(list@)[k] != text@,
        decreases list.len() - i,
    {
        if same_text(list[i].as_str(), text) {
            proof {
                assert(crate::text::texts(list@)[i as int] == text@);
            }
            return true;
        }
        i += 1;
    }
    false
}

/// Plans the layout of the given files in a scratch area.
pub fn plan_package(files: &Vec<FileInfo>) -> (steps: Vec<PackageStep>)
    ensures
        step_models(steps@) == package_plan(file_records(files@)),
{
    let mut steps: Vec<PackageStep> = Vec::new();
    let mut dirs: Vec<String> = Vec::new();
    let mut i: usize = 0;
    let ghost records = file_records(files@);
    proof {
        assert(records.take(0) =~= Seq::<FileRecord>::empty());
        assert(step_models(steps@) =~= Seq::<StepModel>::empty());
        assert(crate::text::texts(dirs@) =~= Seq::<Seq<char>>::empty());
    }
    while i < files.len()
        invariant
            i <= files.len(),
            records == file_records(files@),
            step_models(steps@) == package_plan(records.take(i as int)),
            crate::text::texts(dirs@) == distinct_dirs(records.take(i as int)),
        decreases files.len() - i,
    {
        let file = &files[i];
        proof {
            assert(records.take(i as int + 1).drop_last() =~= records.take(i as int));
            assert(records.take(i as int + 1).last() == files@[i as int]@);
        }
        let dir = parent_dir(file.full_path.as_str());
        if !holds_text(&dirs, dir.as_str()) {
            let ghost dirs_before = dirs@;
            let ghost steps_before = steps@;
            dirs.push(dir.clone());
            steps.push(PackageStep::EnsureDir { dir });
            proof {
                assert(crate::text::texts(dirs@) =~= crate::text::texts(dirs_before).push(
                    dir_of(file@.full_path),
                ));
                assert(step_models(steps@) =~= step_models(steps_before).push(
                    StepModel::EnsureDir { dir: dir_of(file@.full_path) },
                ));
            }
        }
        let ghost steps_before = steps@;
        steps.push(
            PackageStep::WriteFile {
                path: file.full_path.clone(),
                size: file.size,
                items: clone_items(&file.items),
            },
        );
        proof {
            assert(step_models(steps@) =~= step_models(steps_before).push(write_step(file@)));
        }
        i += 1;
    }
    proof {
        assert(records.take(files.len() as int) =~= records);
    }
    steps
}

} // verus!
