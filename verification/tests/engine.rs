use gphoto_sort::classify::CandidatePath;
use gphoto_sort::dates::DateBucket;
use gphoto_sort::engine::{
    bucket_dir, export_root, is_excluded_folder, plan_file, validate_gphoto_dir,
    validate_takeout_dir, Tally, ValidationError, EXCLUDED_PREFIX, EXPORT_FOLDER,
};
use gphoto_sort::mover::{DispositionOutcome, ResolveError};

fn candidate(containing_dir: &str, stem: &str, extension: Option<&str>) -> CandidatePath {
    let name = match extension {
        Some(ext) => format!("{}.{}", stem, ext),
        None => String::from(stem),
    };
    CandidatePath {
        path: format!("/takeout/Google Photos/{}/{}", containing_dir, name),
        stem: String::from(stem),
        extension: extension.map(String::from),
        containing_dir: String::from(containing_dir),
    }
}

#[test]
fn dated_picture_is_bound_for_its_bucket() {
    let job = plan_file("/archive", &candidate("My Album", "IMG_2013_04_02_0001", Some("jpg")), false)
        .unwrap()
        .unwrap();
    assert_eq!(job.source, "/takeout/Google Photos/My Album/IMG_2013_04_02_0001.jpg");
    assert_eq!(job.dir, "/archive/2013/04");
    assert_eq!(job.stem, "IMG_2013_04_02_0001");
    assert_eq!(job.ext, "jpg");
    assert!(!job.dry_run);
    assert_eq!(job.slot(0).path_text(), "/archive/2013/04/IMG_2013_04_02_0001.jpg");
}

#[test]
fn undated_picture_is_bound_for_the_bucket_of_its_folder() {
    let job = plan_file("/archive", &candidate("2020-14-17", "IMG_0004-edited(17)", Some("jpg")), true)
        .unwrap()
        .unwrap();
    assert_eq!(job.dir, "/archive/2020/14");
    assert_eq!(job.slot(0).file_name, "IMG_0004-edited(17).jpg");
    assert!(job.dry_run);
}

#[test]
fn picture_without_a_date_is_passed_over() {
    assert!(plan_file("/archive", &candidate("My Album", "IMG_0004", Some("jpg")), false)
        .unwrap()
        .is_none());
}

#[test]
fn noise_is_passed_over_whatever_its_name() {
    assert!(plan_file("/archive", &candidate("2020-14-17", "IMG_2013_04_02", Some("json")), false)
        .unwrap()
        .is_none());
    assert!(plan_file("/archive", &candidate("2020-14-17", "IMG_2013_04_02", None), false)
        .unwrap()
        .is_none());
}

#[test]
fn bucket_directories_lie_under_year_and_month() {
    let bucket = DateBucket { year: String::from("2013"), month: String::from("04") };
    assert_eq!(bucket_dir("/archive/Google Photos", &bucket), "/archive/Google Photos/2013/04");
}

#[test]
fn walk_starts_in_the_export_folder() {
    assert_eq!(EXPORT_FOLDER, "Google Photos");
    assert_eq!(export_root("/home/me/Takeout"), "/home/me/Takeout/Google Photos");
}

#[test]
fn chat_folders_are_left_out() {
    assert_eq!(EXCLUDED_PREFIX, "Hangout");
    assert!(is_excluded_folder("Hangout"));
    assert!(is_excluded_folder("Hangout_ Jane Doe"));
    assert!(!is_excluded_folder("hangout"));
    assert!(!is_excluded_folder("My Hangout"));
    assert!(!is_excluded_folder("2013-03-16"));
    assert!(!is_excluded_folder(""));
}

#[test]
fn roots_are_checked_in_order() {
    assert_eq!(validate_takeout_dir(true, true), Ok(()));
    assert_eq!(validate_takeout_dir(true, false), Err(ValidationError::ExportFolderMissing));
    assert_eq!(validate_takeout_dir(false, true), Err(ValidationError::SourceMissing));
    assert_eq!(validate_takeout_dir(false, false), Err(ValidationError::SourceMissing));
    assert_eq!(validate_gphoto_dir(true), Ok(()));
    assert_eq!(validate_gphoto_dir(false), Err(ValidationError::DestinationMissing));
}

#[test]
fn tally_counts_moves_and_deletes_only() {
    let mut tally = Tally::new();
    assert_eq!(tally, Tally { moved: 0, deleted: 0 });
    assert!(tally.record(Ok(DispositionOutcome::Moved)));
    assert!(tally.record(Ok(DispositionOutcome::Deleted)));
    assert!(tally.record(Ok(DispositionOutcome::Deleted)));
    assert!(tally.record(Ok(DispositionOutcome::Skipped)));
    assert!(tally.record(Err(ResolveError::Io)));
    assert!(tally.record(Err(ResolveError::RetryLimit)));
    assert_eq!(tally, Tally { moved: 1, deleted: 2 });
}

#[test]
fn a_bucket_directory_that_cannot_be_made_stops_the_merge() {
    let mut tally = Tally { moved: 4, deleted: 5 };
    assert!(!tally.record(Err(ResolveError::DirectoryCreation)));
    assert_eq!(tally, Tally { moved: 4, deleted: 5 });
}

#[test]
fn duplicate_adds_to_the_deleted_count_only() {
    let mut tally = Tally { moved: 4, deleted: 5 };
    assert!(tally.record(Ok(DispositionOutcome::Deleted)));
    assert_eq!(tally, Tally { moved: 4, deleted: 6 });
}

#[test]
fn a_full_count_still_takes_what_does_not_grow_it() {
    let mut tally = Tally { moved: usize::MAX, deleted: 7 };
    assert!(tally.record(Ok(DispositionOutcome::Skipped)));
    assert!(tally.record(Err(ResolveError::Io)));
    assert!(tally.record(Ok(DispositionOutcome::Deleted)));
    assert_eq!(tally, Tally { moved: usize::MAX, deleted: 8 });
    let mut tally = Tally { moved: 7, deleted: usize::MAX };
    assert!(tally.record(Ok(DispositionOutcome::Moved)));
    assert!(!tally.record(Err(ResolveError::DirectoryCreation)));
    assert_eq!(tally, Tally { moved: 8, deleted: usize::MAX });
}

#[test]
fn media_with_the_library_pattern_is_always_planned() {
    for stem in ["IMG_2013_04_02", "no date", ""] {
        assert!(plan_file("/archive", &candidate("album", stem, Some("png")), false).is_ok());
    }
}
