//! The directory sharder: chunk files are spread over directories named by
//! the year, the day of the year and the minute of the day at which they
//! are written, so that no directory grows without bound.
//!
//! The directories are made on disk by the caller; a cache of the
//! directories known to exist saves asking the disk. A [`ShardWalk`] says
//! what to ask and what to make.

use crate::text::{concat_with, decimal, decimal_i64, decimal_u64};
use chrono::{Datelike, Timelike};
use vstd::prelude::*;

verus! {

/// How long the cache may remember that a shard directory exists: a day.
pub const SHARD_CACHE_TTL_SECS: u64 = 86400;

/// The fields of a local date and time that the sharder reads.
#[derive(Clone, Copy, Debug, PartialEq, Eq, Structural)]
pub struct ClockReading {
    pub year: i32,
    /// Day of the year, from 1.
    pub day_of_year: u32,
    /// Hour of the day, from 0.
    pub hour: u32,
    /// Minute of the hour, from 0.
    pub minute: u32,
}

impl ClockReading {
    /// The day is one of a year's 366, the hour one of a day's 24, the
    /// minute one of an hour's 60.
    pub open spec fn plausible(self) -> bool {
        &&& 1 <= self.day_of_year <= 366
        &&& self.hour < 24
        &&& self.minute < 60
    }
}

/// Reads the local clock with `chrono::Local::now`, and takes the year, the
/// day of the year, the hour and the minute of what it returns. The
/// contract claims the ranges that chrono documents for `ordinal`, `hour`
/// and `minute`; the values themselves depend on when the call is made.
#[verifier::external_body]
fn read_local_clock() -> (reading: ClockReading)
    ensures
        reading.plausible(),
{
    let now = chrono::Local::now();
    ClockReading {
        year: now.year(),
        day_of_year: now.ordinal(),
        hour: now.hour(),
        minute: now.minute(),
    }
}

/// The shape of a time as the catalog records it: a year of four digits
/// or more, then `-`, month, `-`, day, a space, hour, `:`, minute, `:` and
/// second, each of the last five in two characters.
pub open spec fn time_shaped(text: Seq<char>) -> bool {
    let n = text.len() as int;
    &&& n >= 19
    &&& text[n - 15] == '-'
    &&& text[n - 12] == '-'
    &&& text[n - 9] == ' '
    &&& text[n - 6] == ':'
    &&& text[n - 3] == ':'
}

/// Formats the local time that `chrono::Local::now` returns with the
/// pattern `%Y-%m-%d %H:%M:%S`. The contract claims the shape that chrono
/// documents for these specifiers: the year is padded to four digits at
/// least, the other five fields to two, with the separators of the
/// pattern between them. Which time it is depends on when the call is
/// made.
#[verifier::external_body]
fn format_local_time() -> (text: String)
    ensures
        time_shaped(text@),
{
    chrono::Local::now().format("%Y-%m-%d %H:%M:%S").to_string()
}

/// The local time as the catalog records it, such as
/// `2025-03-01 17:45:10`. Which time it is is whatever the clock says.
pub fn build_time() -> (text: String)
    ensures
        time_shaped(text@),
{
    format_local_time()
}

/// The names of the three nested shard directories for an instant.
#[derive(Clone, Copy, Debug, PartialEq, Eq, Structural)]
pub struct ShardKey {
    pub year: i32,
    pub day_of_year: u32,
    pub minute_of_day: u64,
}

impl ShardKey {
    /// The shard of a clock reading: the minute of the day is sixty times
    /// the hour plus the minute.
    pub open spec fn of(reading: ClockReading) -> ShardKey {
        ShardKey {
            year: reading.year,
            day_of_year: reading.day_of_year,
            minute_of_day: (reading.hour * 60 + reading.minute) as u64,
        }
    }

    /// Executable form of [`ShardKey::of`]. For a plausible reading the
    /// minute of the day is below 1440.
    pub fn from_reading(reading: ClockReading) -> (key: ShardKey)
        ensures
            key == ShardKey::of(reading),
            reading.plausible() ==> key.minute_of_day < 1440 && 1 <= key.day_of_year <= 366,
    {
        let hour: u64 = reading.hour as u64;
        let minute: u64 = reading.minute as u64;
        ShardKey {
            year: reading.year,
            day_of_year: reading.day_of_year,
            minute_of_day: hour * 60 + minute,
        }
    }

    /// The shard of the present moment.
    pub fn now() -> (key: ShardKey)
        ensures
            key.minute_of_day < 1440,
            1 <= key.day_of_year <= 366,
    {
        ShardKey::from_reading(read_local_clock())
    }
}

/// The three nested directories of a shard under a storage root, outermost
/// first: `root/year`, `root/year/day`, `root/year/day/minute`.
pub open spec fn shard_dirs(root: Seq<char>, key: ShardKey) -> Seq<Seq<char>> {
    let year_dir = root.push('/') + decimal(key.year as int);
    let day_dir = year_dir.push('/') + decimal(key.day_of_year as int);
    let minute_dir = day_dir.push('/') + decimal(key.minute_of_day as int);
    seq![year_dir, day_dir, minute_dir]
}

/// The location of a chunk file: the shard directory, `/`, and the
/// chunk's id.
pub open spec fn chunk_location(dir: Seq<char>, chunk_id: Seq<char>) -> Seq<char> {
    dir.push('/') + chunk_id
}

/// Executable form of [`chunk_location`].
pub fn chunk_path(dir: &str, chunk_id: &str) -> (path: String)
    ensures
        path@ == chunk_location(dir@, chunk_id@),
{
    concat_with(dir, '/', chunk_id)
}

/// What a shard walk waits for.
#[derive(Clone, Copy, Debug, PartialEq, Eq, Structural)]
pub enum ShardPhase {
    /// The cache's answer for the current directory.
    Probing,
    /// The word that the current directory was made and marked.
    Ensuring,
    /// Nothing: all directories exist.
    Done,
    /// Nothing: the walk was given an answer that it had not asked for.
    Failed,
}

/// What the caller has to do next for a shard walk.
#[derive(Debug)]
pub enum ShardRequest {
    /// Ask the cache whether the directory is known to exist.
    CacheGet { path: String },
    /// Make the directory unless the disk has it, then mark it in the
    /// cache.
    EnsureDir { path: String },
    /// Nothing more: chunks go to this directory.
    Done { path: String },
    /// Nothing more: the walk cannot go on.
    Failed,
}

/// Mathematical model of a [`ShardRequest`].
pub enum ShardRequestModel {
    CacheGet { path: Seq<char> },
    EnsureDir { path: Seq<char> },
    Done { path: Seq<char> },
    Failed,
}

impl View for ShardRequest {
    type V = ShardRequestModel;

    open spec fn view(&self) -> ShardRequestModel {
        match self {
            ShardRequest::CacheGet { path } => ShardRequestModel::CacheGet { path: path@ },
            ShardRequest::EnsureDir { path } => ShardRequestModel::EnsureDir { path: path@ },
            ShardRequest::Done { path } => ShardRequestModel::Done { path: path@ },
            ShardRequest::Failed => ShardRequestModel::Failed,
        }
    }
}

/// What the cache or the disk answered.
#[derive(Clone, Copy, Debug, PartialEq, Eq, Structural)]
pub enum ShardResponse {
    /// The cache knows the directory.
    Cached,
    /// The cache does not know the directory.
    NotCached,
    /// The directory exists now and the cache knows it.
    Ensured,
}

/// Mathematical model of a [`ShardWalk`].
pub struct ShardState {
    /// The directories to secure, outermost first.
    pub dirs: Seq<Seq<char>>,
    /// Index of the directory being secured.
    pub depth: int,
    pub phase: ShardPhase,
}

impl ShardState {
    /// With the current directory secured, the walk goes one level down,
    /// or ends at the innermost directory.
    pub open spec fn descend(self) -> (ShardState, ShardRequestModel) {
        if 0 <= self.depth + 1 < self.dirs.len() {
            (
                ShardState { depth: self.depth + 1, phase: ShardPhase::Probing, ..self },
                ShardRequestModel::CacheGet { path: self.dirs[self.depth + 1] },
            )
        } else if 0 <= self.depth < self.dirs.len() {
            (
                ShardState { phase: ShardPhase::Done, ..self },
                ShardRequestModel::Done { path: self.dirs[self.depth] },
            )
        } else {
            (ShardState { phase: ShardPhase::Failed, ..self }, ShardRequestModel::Failed)
        }
    }

    /// One step of the walk: a directory that the cache knows is taken
    /// to exist; one that it does not know is made if the disk lacks it,
    /// and marked in the cache.
    pub open spec fn step(self, response: ShardResponse) -> (ShardState, ShardRequestModel) {
        match (self.phase, response) {
            (ShardPhase::Probing, ShardResponse::Cached) => self.descend(),
            (ShardPhase::Probing, ShardResponse::NotCached) => {
                if 0 <= self.depth < self.dirs.len() {
                    (
                        ShardState { phase: ShardPhase::Ensuring, ..self },
                        ShardRequestModel::EnsureDir { path: self.dirs[self.depth] },
                    )
                } else {
                    (ShardState { phase: ShardPhase::Failed, ..self }, ShardRequestModel::Failed)
                }
            },
            (ShardPhase::Ensuring, ShardResponse::Ensured) => self.descend(),
            _ => (ShardState { phase: ShardPhase::Failed, ..self }, ShardRequestModel::Failed),
        }
    }
}

/// The walk at its start: asking the cache for the outermost directory.
pub open spec fn shard_start(root: Seq<char>, key: ShardKey) -> (ShardState, ShardRequestModel) {
    let dirs = shard_dirs(root, key);
    (
        ShardState { dirs, depth: 0, phase: ShardPhase::Probing },
        ShardRequestModel::CacheGet { path: dirs[0] },
    )
}

/// A walk that ends reports the innermost directory, and it ends only
/// after every directory on the way was found in the cache or secured.
pub proof fn lemma_shard_done(state: ShardState, response: ShardResponse)
    requires
        state.dirs.len() == 3,
        0 <= state.depth < 3,
        state.step(response).1 is Done,
    ensures
        state.depth == 2,
        state.step(response).1->Done_path == state.dirs[2],
        response == ShardResponse::Cached || response == ShardResponse::Ensured,
{
}

/// The securing of a shard's directories, one level at a time.
#[derive(Debug)]
pub struct ShardWalk {
    dirs: Vec<String>,
    depth: usize,
    phase: ShardPhase,
}

impl View for ShardWalk {
    type V = ShardState;

    closed spec fn view(&self) -> ShardState {
        ShardState {
            dirs: crate::text::texts(self.dirs@),
            depth: self.depth as int,
            phase: self.phase,
        }
    }
}

impl ShardWalk {
    /// Starts to secure the directories of a shard under a storage root.
    pub fn start(root: &str, key: ShardKey) -> (out: (ShardWalk, ShardRequest))
        ensures
            (out.0@, out.1@) == shard_start(root@, key),
    {
        let year = decimal_i64(key.year as i64);
        let day = decimal_u64(key.day_of_year as u64);
        let minute = decimal_u64(key.minute_of_day);
        let year_dir = concat_with(root, '/', year.as_str());
        let day_dir = concat_with(year_dir.as_str(), '/', day.as_str());
        let minute_dir = concat_with(day_dir.as_str(), '/', minute.as_str());
        let request = ShardRequest::CacheGet { path: year_dir.clone() };
        let mut dirs: Vec<String> = Vec::new();
        dirs.push(year_dir);
        dirs.push(day_dir);
        dirs.push(minute_dir);
        proof {
            assert(crate::text::texts(dirs@) =~= shard_dirs(root@, key));
        }
        (ShardWalk { dirs, depth: 0, phase: ShardPhase::Probing }, request)
    }

    fn fail(self) -> (out: (ShardWalk, ShardRequest))
        ensures
            out.0@ == (ShardState { phase: ShardPhase::Failed, ..self@ }),
            out.1@ == ShardRequestModel::Failed,
    {
        (
            ShardWalk { dirs: self.dirs, depth: self.depth, phase: ShardPhase::Failed },
            ShardRequest::Failed,
        )
    }

    fn descend(self) -> (out: (ShardWalk, ShardRequest))
        ensures
            (out.0@, out.1@) == self@.descend(),
    {
        if self.dirs.len() > 0 && self.depth < self.dirs.len() - 1 {
            let path = self.dirs[self.depth + 1].clone();
            proof {
                assert(crate::text::texts(self.dirs@)[self.depth as int + 1]
                    == self.dirs@[self.depth as int + 1]@);
            }
            (
                ShardWalk { dirs: self.dirs, depth: self.depth + 1, phase: ShardPhase::Probing },
                ShardRequest::CacheGet { path },
            )
        } else if self.depth < self.dirs.len() {
            let path = self.dirs[self.depth].clone();
            proof {
                assert(crate::text::texts(self.dirs@)[self.depth as int]
                    == self.dirs@[self.depth as int]@);
            }
            (
                ShardWalk { dirs: self.dirs, depth: self.depth, phase: ShardPhase::Done },
                ShardRequest::Done { path },
            )
        } else {
            self.fail()
        }
    }

    /// Takes the answer to the last request and says what to do next.
    pub fn step(self, response: ShardResponse) -> (out: (ShardWalk, ShardRequest))
        ensures
            (out.0@, out.1@) == self@.step(response),
    {
        match (self.phase, response) {
            (ShardPhase::Probing, ShardResponse::Cached) => self.descend(),
            (ShardPhase::Probing, ShardResponse::NotCached) => {
                if self.depth < self.dirs.len() {
                    let path = self.dirs[self.depth].clone();
                    proof {
                        assert(crate::text::texts(self.dirs@)[self.depth as int]
                            == self.dirs@[self.depth as int]@);
                    }
                    (
                        ShardWalk {
                            dirs: self.dirs,
                            depth: self.depth,
                            phase: ShardPhase::Ensuring,
                        },
                        ShardRequest::EnsureDir { path },
                    )
                } else {
                    self.fail()
                }
            },
            (ShardPhase::Ensuring, ShardResponse::Ensured) => self.descend(),
            _ => self.fail(),
        }
    }
}

} // verus!
