use timekeeper::classify::is_media_file;
use timekeeper::date::{choose_local_reading, parse_date_fields, parse_exif_date, trim_text, Stamp};
use timekeeper::exiftool::{exiftool_path_from, get_exiftool_path, get_install_instructions, tool_not_found_message, HostOs};
use timekeeper::plan::{
    already_in_place, candidate_path, decimal, destination_dir, get_unique_file_path, month_name,
    year_text,
};
use timekeeper::process::{count_media_files, plan_destination, Plan};
use timekeeper::relocate::{
    is_cross_device_error, relocate_step, ErrorClass, Event, Failure, MoveError, Platform,
    Relocation, Stage,
};
use timekeeper::resolve::{should_query_next, needs_fallback, date_field, date_from_tool_output, resolve_date, tag_argument, DateSource, ResolvedDate};
use timekeeper::stats::{percent_tenths, Origin, Outcome, Stats};

fn stamp(year: i32, month: u32, day: u32, hour: u32, minute: u32, second: u32) -> Stamp {
    Stamp { year, month, day, hour, minute, second }
}

const EXTENSIONS: [&str; 20] = [
    "jpg", "jpeg", "png", "tiff", "tif", "raw", "cr2", "nef", "arw", "dng", "mp4", "mov", "avi",
    "mkv", "wmv", "m4v", "3gp", "webm", "webp", "gif",
];

#[test]
fn supported_extensions_in_any_case_are_media() {
    for ext in EXTENSIONS.iter() {
        assert!(is_media_file(&format!("photo.{}", ext)));
        assert!(is_media_file(&format!("dir/photo.{}", ext.to_uppercase())));
        let mixed: String = ext
            .chars()
            .enumerate()
            .map(|(i, c)| if i % 2 == 0 { c.to_ascii_uppercase() } else { c })
            .collect();
        assert!(is_media_file(&format!("/a/b/photo.{}", mixed)));
    }
}

#[test]
fn other_or_missing_extensions_are_not_media() {
    assert!(!is_media_file("notes.txt"));
    assert!(!is_media_file("archive.jpg.zip"));
    assert!(!is_media_file("README"));
    assert!(!is_media_file(".jpg"));
    assert!(!is_media_file("dir.jpg/file"));
    assert!(!is_media_file("photo."));
    assert!(!is_media_file(""));
    assert!(is_media_file("album/photo.JPG/"));
    assert!(is_media_file("album/photo.jpg/."));
    assert!(!is_media_file("album/."));
}

#[test]
fn date_layouts_are_read() {
    assert_eq!(parse_date_fields("2023:05:14 10:22:31"), Some((stamp(2023, 5, 14, 10, 22, 31), None)));
    assert_eq!(parse_date_fields("2023:05:14 10:22:31Z"), Some((stamp(2023, 5, 14, 10, 22, 31), None)));
    assert_eq!(
        parse_date_fields("2023:05:14 10:22:31+0200"),
        Some((stamp(2023, 5, 14, 10, 22, 31), Some(7200)))
    );
    assert_eq!(
        parse_date_fields("2021-01-02T03:04:05-05:30"),
        Some((stamp(2021, 1, 2, 3, 4, 5), Some(-19800)))
    );
    assert_eq!(parse_date_fields("2021-01-02 03:04:05"), Some((stamp(2021, 1, 2, 3, 4, 5), None)));
    assert_eq!(parse_date_fields("2021-01-02T03:04:05Z"), Some((stamp(2021, 1, 2, 3, 4, 5), None)));
}

#[test]
fn bad_dates_are_refused() {
    assert_eq!(parse_date_fields(""), None);
    assert_eq!(parse_date_fields("2023:02:29 10:00:00"), None);
    assert_eq!(parse_date_fields("2024:02:29 10:00:00"), Some((stamp(2024, 2, 29, 10, 0, 0), None)));
    assert_eq!(parse_date_fields("2023:13:01 10:00:00"), None);
    assert_eq!(parse_date_fields("2023:05:14T10:22:31"), None);
    assert_eq!(parse_date_fields("2023-05:14 10:22:31"), None);
    assert_eq!(parse_date_fields("2023:05:14 24:00:00"), None);
    assert_eq!(parse_date_fields("2023:05:14 10:22:31+2400"), None);
    assert_eq!(parse_date_fields("2023:05:14 10:22:31 extra"), None);
    assert_eq!(parse_date_fields("0000:00:00 00:00:00"), None);
}

#[test]
fn tool_output_is_trimmed() {
    assert_eq!(trim_text("  2023:05:14 10:22:31\n"), "2023:05:14 10:22:31");
    assert_eq!(trim_text(" \t\r\n"), "");
    assert_eq!(date_from_tool_output(""), None);
    assert_eq!(date_from_tool_output("   \n"), None);
    let d = date_from_tool_output("2023:05:14 10:22:31\n").unwrap();
    assert_eq!((d.year, d.month), (2023, 5));
}

#[test]
fn offsets_are_converted_to_local_time() {
    let utc = parse_exif_date("2023:05:14 10:22:31+0000").unwrap();
    let east = parse_exif_date("2023:05:14 10:22:31+0200").unwrap();
    assert_eq!((utc.hour + 24 - east.hour) % 24, 2);
    let local = parse_exif_date("2023:05:14 10:22:31").unwrap();
    assert_eq!(local, stamp(2023, 5, 14, 10, 22, 31));
}

#[test]
fn original_date_gives_may_folder() {
    let readings = vec![date_from_tool_output("2023:05:14 10:22:31")];
    let r = resolve_date(&readings, Some(stamp(2000, 1, 1, 0, 0, 0))).unwrap();
    assert_eq!(r.source, DateSource::Metadata(0));
    assert_eq!(r.stamp.year, 2023);
    assert_eq!(destination_dir("/photos", &r.stamp), "/photos/2023/May");
}

#[test]
fn file_modify_date_field_counts_as_metadata() {
    let outputs = ["", "", "", "2021-01-02T03:04:05Z"];
    let readings: Vec<Option<Stamp>> = outputs.iter().map(|o| date_from_tool_output(o)).collect();
    let r = resolve_date(&readings, Some(stamp(2000, 1, 1, 0, 0, 0))).unwrap();
    assert_eq!(r.source, DateSource::Metadata(3));
    assert_eq!(r.origin(), Origin::Metadata);
    assert_eq!(date_field(3), "FileModifyDate");
    assert_eq!(r.stamp.year, 2021);
}

#[test]
fn missing_tool_falls_back_to_modification_time() {
    let mtime = stamp(2019, 7, 4, 12, 0, 0);
    let mut stats = Stats::new();
    stats.set_total(3);
    for _ in 0..3 {
        assert!(stats.begin_candidate(false));
        let r = resolve_date(&Vec::new(), Some(mtime)).unwrap();
        assert_eq!(r.source, DateSource::Fallback);
        assert_eq!(r.origin(), Origin::Fallback);
        assert_eq!(r.stamp, mtime);
        stats.record(Outcome::Moved(Origin::Fallback));
    }
    assert_eq!(stats.fallback_count, 3);
    assert_eq!(stats.exif_count, 0);
    let r = resolve_date(&vec![None, None, None, None], Some(mtime)).unwrap();
    assert!(needs_fallback(&vec![None, None]));
    assert!(resolve_date(&vec![None, None], None).is_none());
    assert_eq!(r.source, DateSource::Fallback);
}

#[test]
fn field_names_and_arguments() {
    assert_eq!(date_field(0), "DateTimeOriginal");
    assert_eq!(date_field(1), "CreateDate");
    assert_eq!(date_field(2), "DateTime");
    assert_eq!(tag_argument(0), "-DateTimeOriginal");
}

#[test]
fn colliding_names_get_increasing_suffixes() {
    let mut existing = vec![String::from("dest/foo.jpg")];
    let first = get_unique_file_path("dest/foo.jpg", &existing);
    assert_eq!(first, "dest/foo_1.jpg");
    existing.push(first.clone());
    let second = get_unique_file_path("dest/foo.jpg", &existing);
    assert_eq!(second, "dest/foo_2.jpg");
    assert_eq!(get_unique_file_path("dest/bar.jpg", &existing), "dest/bar.jpg");
}

#[test]
fn suffix_placement() {
    assert_eq!(candidate_path("a/b/foo.jpg", 0), "a/b/foo.jpg");
    assert_eq!(candidate_path("a/b/foo.jpg", 12), "a/b/foo_12.jpg");
    assert_eq!(candidate_path("a/b/foo", 1), "a/b/foo_1");
    assert_eq!(candidate_path("foo.tar.gz", 3), "foo.tar_3.gz");
    assert_eq!(candidate_path("foo.", 1), "foo_1");
    assert_eq!(candidate_path("/foo.jpg", 2), "/foo_2.jpg");
}

#[test]
fn numbers_and_months() {
    assert_eq!(decimal(0), "0");
    assert_eq!(decimal(1234567890), "1234567890");
    assert_eq!(decimal(u64::MAX), u64::MAX.to_string());
    assert_eq!(year_text(2023), "2023");
    assert_eq!(year_text(-44), "-44");
    assert_eq!(month_name(1), "January");
    assert_eq!(month_name(12), "December");
    assert_eq!(destination_dir("out/", &stamp(1999, 9, 1, 0, 0, 0)), "out/1999/September");
    assert_eq!(destination_dir("", &stamp(1999, 9, 1, 0, 0, 0)), "1999/September");
}

#[test]
fn organized_tree_is_skipped() {
    let date = ResolvedDate { stamp: stamp(2023, 5, 14, 10, 22, 31), source: DateSource::Metadata(0) };
    let files = ["out/2023/May/a.jpg", "out/2023/May/a_1.jpg"];
    let mut stats = Stats::new();
    stats.set_total(files.len());
    for f in files.iter() {
        assert!(already_in_place(f, "out/2023/May"));
        assert!(stats.begin_candidate(false));
        match plan_destination(f, "out", &date, &Vec::new()) {
            Plan::AlreadyInPlace => stats.record(Outcome::Skipped(Origin::Metadata)),
            Plan::MoveTo { .. } | Plan::InvalidFilename => panic!("planned a move for a placed file"),
        }
    }
    assert_eq!(stats.skipped, stats.total);
}

#[test]
fn plan_moves_a_file_from_elsewhere() {
    let date = ResolvedDate { stamp: stamp(2023, 5, 14, 10, 22, 31), source: DateSource::Fallback };
    let existing = vec![String::from("out/2023/May/a.jpg")];
    match plan_destination("in/a.jpg", "out", &date, &existing) {
        Plan::MoveTo { dir, path } => {
            assert_eq!(dir, "out/2023/May");
            assert_eq!(path, "out/2023/May/a_1.jpg");
        }
        Plan::AlreadyInPlace | Plan::InvalidFilename => panic!("file is not in place"),
    }
}

#[test]
fn rename_then_done() {
    assert!(matches!(relocate_step(Stage::Rename, Event::Done, Platform::Unix), Relocation::Finished(Ok(()))));
}

#[test]
fn cross_device_move_copies_then_deletes() {
    let exdev = MoveError { raw_os_error: Some(18), class: ErrorClass::Other };
    assert!(is_cross_device_error(&exdev, Platform::Unix));
    assert!(!is_cross_device_error(&exdev, Platform::Windows));
    let not_same = MoveError { raw_os_error: Some(17), class: ErrorClass::Other };
    assert!(is_cross_device_error(&not_same, Platform::Windows));
    let denied = MoveError { raw_os_error: None, class: ErrorClass::PermissionDenied };
    assert!(is_cross_device_error(&denied, Platform::Other));
    let s = relocate_step(Stage::Rename, Event::RenameError(exdev), Platform::Unix);
    assert!(matches!(s, Relocation::Next(Stage::Copy)));
    let s = relocate_step(Stage::Copy, Event::Done, Platform::Unix);
    assert!(matches!(s, Relocation::Next(Stage::CompareSizes)));
    let s = relocate_step(Stage::CompareSizes, Event::Sizes(10, 10), Platform::Unix);
    assert!(matches!(s, Relocation::Next(Stage::RemoveSource)));
    let s = relocate_step(Stage::RemoveSource, Event::Done, Platform::Unix);
    assert!(matches!(s, Relocation::Finished(Ok(()))));
}

#[test]
fn size_mismatch_removes_the_copy_and_keeps_the_source() {
    let s = relocate_step(Stage::CompareSizes, Event::Sizes(10, 7), Platform::Unix);
    assert!(matches!(s, Relocation::Next(Stage::RemoveCopy(Failure::SizeMismatch))));
    let s = relocate_step(Stage::RemoveCopy(Failure::SizeMismatch), Event::Done, Platform::Unix);
    assert!(matches!(s, Relocation::Finished(Err(Failure::SizeMismatch))));
    let s = relocate_step(Stage::Copy, Event::Error, Platform::Unix);
    assert!(matches!(s, Relocation::Next(Stage::RemoveCopy(Failure::Copy))));
    let s = relocate_step(Stage::CompareSizes, Event::Error, Platform::Unix);
    assert!(matches!(s, Relocation::Next(Stage::RemoveCopy(Failure::SizeUnknown))));
    let s = relocate_step(Stage::RemoveCopy(Failure::Copy), Event::Error, Platform::Unix);
    assert!(matches!(s, Relocation::Finished(Err(Failure::CleanupFailed))));
    let s = relocate_step(Stage::RemoveSource, Event::Error, Platform::Unix);
    assert!(matches!(s, Relocation::Next(Stage::RemoveCopy(Failure::SourceNotRemoved))));
    let s = relocate_step(Stage::RemoveCopy(Failure::SourceNotRemoved), Event::Done, Platform::Unix);
    assert!(matches!(s, Relocation::Finished(Err(Failure::SourceNotRemoved))));
}

#[test]
fn other_rename_errors_are_final() {
    let other = MoveError { raw_os_error: Some(2), class: ErrorClass::Other };
    assert!(!is_cross_device_error(&other, Platform::Unix));
    let s = relocate_step(Stage::Rename, Event::RenameError(other), Platform::Unix);
    assert!(matches!(s, Relocation::Finished(Err(Failure::Rename))));
}

#[test]
fn stats_counts_and_bounds() {
    let mut stats = Stats::new();
    assert_eq!(
        (stats.total, stats.processed, stats.exif_count, stats.fallback_count, stats.skipped, stats.errors),
        (0, 0, 0, 0, 0, 0)
    );
    assert!(stats.begin_candidate(false));
    stats.record(Outcome::Moved(Origin::Metadata));
    assert!(stats.begin_candidate(false));
    stats.record(Outcome::Failed);
    assert!(stats.begin_candidate(false));
    stats.record(Outcome::Skipped(Origin::Fallback));
    assert_eq!(stats.processed, 3);
    assert_eq!(stats.exif_count, 1);
    assert_eq!(stats.fallback_count, 1);
    assert_eq!(stats.skipped, 1);
    assert_eq!(stats.errors, 1);
    assert!(stats.exif_count + stats.fallback_count <= stats.processed);
}

#[test]
fn cancelled_candidates_are_not_started() {
    let mut stats = Stats::new();
    stats.set_total(3);
    assert!(stats.begin_candidate(false));
    stats.record(Outcome::Moved(Origin::Metadata));
    assert!(!stats.begin_candidate(true));
    assert!(!stats.begin_candidate(true));
    assert_eq!(stats.processed, 1);
    assert_eq!(stats.exif_count, 1);
}

#[test]
fn percentages_in_tenths() {
    assert_eq!(percent_tenths(0, 0), 0);
    assert_eq!(percent_tenths(5, 0), 0);
    assert_eq!(percent_tenths(1, 3), 333);
    assert_eq!(percent_tenths(2, 3), 667);
    assert_eq!(percent_tenths(1, 16), 62);
    assert_eq!(percent_tenths(3, 16), 188);
    assert_eq!(percent_tenths(4, 4), 1000);
}

#[test]
fn counting_media_in_a_tree() {
    let paths = vec![
        String::from("a/x.jpg"),
        String::from("a/y.TXT"),
        String::from("a/b/z.MOV"),
        String::from("a/b/.hidden"),
    ];
    assert_eq!(count_media_files(&paths), 2);
    assert_eq!(count_media_files(&Vec::new()), 0);
}

#[test]
fn install_instructions_by_system() {
    assert_eq!(get_install_instructions(HostOs::Windows), "winget install ExifTool");
    assert_eq!(get_install_instructions(HostOs::Linux), "sudo apt install libimage-exiftool-perl");
    assert_eq!(get_install_instructions(HostOs::MacOs), "brew install exiftool");
    assert_eq!(get_install_instructions(HostOs::Other), "https://exiftool.org/");
    assert_eq!(
        tool_not_found_message(HostOs::MacOs),
        "exiftool not found. Install it with:\nbrew install exiftool"
    );
    match get_exiftool_path(HostOs::Linux) {
        Ok(p) => assert!(!p.is_empty()),
        Err(m) => assert_eq!(m, "exiftool not found. Install it with:\nsudo apt install libimage-exiftool-perl"),
    }
}

#[test]
fn source_without_a_file_name_is_refused() {
    let date = ResolvedDate { stamp: stamp(2023, 5, 14, 10, 22, 31), source: DateSource::Fallback };
    assert!(matches!(plan_destination("/", "out", &date, &Vec::new()), Plan::InvalidFilename));
    assert!(matches!(plan_destination("a/..", "out", &date, &Vec::new()), Plan::InvalidFilename));
    assert!(matches!(plan_destination("", "out", &date, &Vec::new()), Plan::InvalidFilename));
    assert!(matches!(plan_destination(".", "out", &date, &Vec::new()), Plan::InvalidFilename));
}

#[test]
fn tool_lookup_outcomes() {
    assert_eq!(exiftool_path_from(Some(String::from("/usr/bin/exiftool")), HostOs::Linux), Ok(String::from("/usr/bin/exiftool")));
    assert_eq!(
        exiftool_path_from(None, HostOs::Windows),
        Err(String::from("exiftool not found. Install it with:\nwinget install ExifTool"))
    );
}

#[test]
fn readable_tool_outputs_give_dates() {
    let d = date_from_tool_output("2023:05:14 10:22:31\n").unwrap();
    assert_eq!((d.year, d.month, d.day), (2023, 5, 14));
    let d = date_from_tool_output("2021-01-02T03:04:05Z").unwrap();
    assert_eq!((d.year, d.month), (2021, 1));
    let d = date_from_tool_output(" 2020:02:03 04:05:06 ").unwrap();
    assert_eq!((d.year, d.month, d.day), (2020, 2, 3));
    let a = parse_exif_date("2023-05-14 10:22:31+0200").unwrap();
    let b = parse_exif_date("2023-05-14T08:22:31+0000").unwrap();
    assert_eq!(a, b);
}

#[test]
fn unique_local_reading_is_preferred() {
    let written = stamp(2020, 2, 3, 4, 5, 6);
    let utc = stamp(2020, 2, 3, 5, 5, 6);
    assert_eq!(choose_local_reading(Some(written), utc), written);
    assert_eq!(choose_local_reading(None, utc), utc);
}

#[test]
fn fields_are_asked_until_one_gives_a_date() {
    let d = stamp(2020, 2, 3, 4, 5, 6);
    assert!(should_query_next(&Vec::new()));
    assert!(should_query_next(&vec![None]));
    assert!(!should_query_next(&vec![Some(d)]));
    assert!(!should_query_next(&vec![None, Some(d)]));
    assert!(!should_query_next(&vec![None, None, None, None]));
}

#[test]
fn dated_outcomes_and_withdrawal() {
    let mut stats = Stats::new();
    let meta = ResolvedDate { stamp: stamp(2021, 1, 2, 3, 4, 5), source: DateSource::Metadata(3) };
    let fallback = ResolvedDate { stamp: stamp(2021, 1, 2, 3, 4, 5), source: DateSource::Fallback };
    assert!(stats.begin_candidate(false));
    stats.record_dated(&meta, false);
    assert!(stats.begin_candidate(false));
    stats.record_dated(&fallback, true);
    assert_eq!((stats.exif_count, stats.fallback_count, stats.skipped), (1, 1, 1));
    assert!(stats.begin_candidate(false));
    stats.withdraw_candidate();
    assert_eq!(stats.processed, 2);
}
