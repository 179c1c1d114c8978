//! The merge of an export into the destination tree, file by file: which
//! folders are walked, where each file is bound for, and the count of what
//! was moved and what was deleted.

use vstd::prelude::*;
use vstd::string::*;
use crate::classify::{is_of_interest, of_interest, CandidatePath, CandidateView};
use crate::dates::{
    extract_bucket, regex_accepts, year_month_spec, DateBucket, PatternError, YEAR_DATE_RE,
};
use crate::mover::{DispositionOutcome, JobView, ResolveError, ResolveJob};
use crate::naming::{bucket_path, join_path, path_in};
use crate::text::{has_prefix, starts_with};

verus! {

/// The folder of an export that holds the media.
pub const EXPORT_FOLDER: &'static str = "Google Photos";

/// Folders whose name begins with this hold chats, and are left out.
pub const EXCLUDED_PREFIX: &'static str = "Hangout";

/// What is wrong with the roots that a merge was asked for.
#[derive(Clone, Copy, PartialEq, Eq, Debug, Structural)]
pub enum ValidationError {
    /// The export root is missing.
    SourceMissing,
    /// The export root lacks the folder that holds the media.
    ExportFolderMissing,
    /// The destination root is missing.
    DestinationMissing,
}

/// Whether an export root can be merged from: it has to exist, and to hold
/// the folder of the media.
pub fn validate_takeout_dir(root_exists: bool, export_folder_exists: bool) -> (checked: Result<
    (),
    ValidationError,
>)
    ensures
        checked == (if !root_exists {
            Err::<(), ValidationError>(ValidationError::SourceMissing)
        } else if !export_folder_exists {
            Err::<(), ValidationError>(ValidationError::ExportFolderMissing)
        } else {
            Ok::<(), ValidationError>(())
        }),
{
    if !root_exists {
        Err(ValidationError::SourceMissing)
    } else if !export_folder_exists {
        Err(ValidationError::ExportFolderMissing)
    } else {
        Ok(())
    }
}

/// Whether a destination root can be merged into: it has to exist.
pub fn validate_gphoto_dir(root_exists: bool) -> (checked: Result<(), ValidationError>)
    ensures
        checked == (if root_exists {
            Ok::<(), ValidationError>(())
        } else {
            Err::<(), ValidationError>(ValidationError::DestinationMissing)
        }),
{
    if root_exists {
        Ok(())
    } else {
        Err(ValidationError::DestinationMissing)
    }
}

/// The folder under `source_root` from which the walk starts.
pub fn export_root(source_root: &str) -> (root: String)
    ensures
        root@ == path_in(source_root@, EXPORT_FOLDER@),
{
    join_path(source_root, EXPORT_FOLDER)
}

/// Whether the folder `name` and all below it are left out of the walk.
pub fn is_excluded_folder(name: &str) -> (excluded: bool)
    ensures
        excluded == starts_with(name@, EXCLUDED_PREFIX@),
{
    has_prefix(name, EXCLUDED_PREFIX)
}

/// The directory of `bucket` under `dest_root`.
pub fn bucket_dir(dest_root: &str, bucket: &DateBucket) -> (dir: String)
    ensures
        dir@ == bucket_path(dest_root@, bucket.year@, bucket.month@),
{
    let year_dir = join_path(dest_root, bucket.year.as_str());
    join_path(year_dir.as_str(), bucket.month.as_str())
}

/// Where `candidate` is bound for: nowhere, if it is no media or if neither
/// its name nor its folder yields a date; else into the directory of its
/// bucket under `dest_root`, under the name it has.
pub open spec fn plan_spec(dest_root: Seq<char>, candidate: CandidateView, dry_run: bool) -> Option<
    JobView,
> {
    if !of_interest(candidate) {
        None
    } else {
        match year_month_spec(YEAR_DATE_RE@, candidate.containing_dir, candidate.stem) {
            Some((year, month)) => Some(
                JobView {
                    source: candidate.path,
                    dir: bucket_path(dest_root, year, month),
                    stem: candidate.stem,
                    ext: candidate.extension->0,
                    dry_run,
                },
            ),
            None => None,
        }
    }
}

/// A job as a mathematical value.
pub open spec fn job_view(job: Option<ResolveJob>) -> Option<JobView> {
    match job {
        Some(j) => Some(j@),
        None => None,
    }
}

/// Decides where `candidate` is bound for. `Ok(None)` says that the file is
/// passed over. A file that is no media is passed over without a look at its
/// name; for the others an `Err` comes exactly where the date pattern is not
/// accepted as a regular expression.
pub fn plan_file(dest_root: &str, candidate: &CandidatePath, dry_run: bool) -> (plan: Result<
    Option<ResolveJob>,
    PatternError,
>)
    ensures
        plan is Ok <==> (!of_interest(candidate@) || regex_accepts(YEAR_DATE_RE@)),
        plan matches Ok(job) ==> job_view(job) == plan_spec(dest_root@, candidate@, dry_run),
{
    let extension = match &candidate.extension {
        Some(text) if is_of_interest(candidate) => text.as_str(),
        _ => {
            return Ok(None);
        },
    };
    match extract_bucket(candidate.containing_dir.as_str(), candidate.stem.as_str()) {
        Ok(Some(bucket)) => {
            let dir = bucket_dir(dest_root, &bucket);
            Ok(
                Some(
                    ResolveJob::new(
                        candidate.path.as_str(),
                        dir.as_str(),
                        candidate.stem.as_str(),
                        extension,
                        dry_run,
                    ),
                ),
            )
        },
        Ok(None) => Ok(None),
        Err(error) => Err(error),
    }
}

/// The count of a merge: how many files were moved, and how many deleted.
#[derive(Clone, Copy, PartialEq, Eq, Debug, Structural)]
pub struct Tally {
    pub moved: usize,
    pub deleted: usize,
}

/// What the disposition of one file adds to the files moved.
pub open spec fn moves_in(result: Result<DispositionOutcome, ResolveError>) -> nat {
    if result == Ok::<DispositionOutcome, ResolveError>(DispositionOutcome::Moved) {
        1
    } else {
        0
    }
}

/// What the disposition of one file adds to the files deleted.
pub open spec fn deletes_in(result: Result<DispositionOutcome, ResolveError>) -> nat {
    if result == Ok::<DispositionOutcome, ResolveError>(DispositionOutcome::Deleted) {
        1
    } else {
        0
    }
}

/// Whether the merge has to stop on `result`: a bucket directory that cannot
/// be created stops it, any other failure is that of one file.
pub open spec fn is_fatal(result: Result<DispositionOutcome, ResolveError>) -> bool {
    result == Err::<DispositionOutcome, ResolveError>(ResolveError::DirectoryCreation)
}

impl Tally {
    /// The count before any file.
    pub fn new() -> (tally: Tally)
        ensures
            tally.moved == 0,
            tally.deleted == 0,
    {
        Tally { moved: 0, deleted: 0 }
    }

    /// Counts the disposition of one file, and says whether the merge goes
    /// on. A file that was skipped or that failed is not counted. The count
    /// that grows has to have room for one more.
    pub fn record(&mut self, result: Result<DispositionOutcome, ResolveError>) -> (go_on: bool)
        requires
            moves_in(result) == 1 ==> old(self).moved < usize::MAX,
            deletes_in(result) == 1 ==> old(self).deleted < usize::MAX,
        ensures
            final(self).moved == old(self).moved + moves_in(result),
            final(self).deleted == old(self).deleted + deletes_in(result),
            go_on == !is_fatal(result),
    {
        match result {
            Ok(DispositionOutcome::Moved) => {
                self.moved = self.moved + 1;
                true
            },
            Ok(DispositionOutcome::Deleted) => {
                self.deleted = self.deleted + 1;
                true
            },
            Ok(DispositionOutcome::Skipped) => true,
            Err(ResolveError::DirectoryCreation) => false,
            Err(_) => true,
        }
    }
}

} // verus!
