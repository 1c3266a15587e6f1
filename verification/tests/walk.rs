use housemanfs::walk::{
    classify_entry, combine_size, EntryKind, FileFacts, WalkOptions, Walker,
    DENIED_SAMPLE_LIMIT, FILE_ATTRIBUTE_DIRECTORY, FILE_ATTRIBUTE_REPARSE_POINT,
};

fn collecting() -> WalkOptions {
    WalkOptions { collect_entries: true }
}

fn linked(allocated: u64, links: u32, id: Option<u128>) -> Option<FileFacts> {
    Some(FileFacts { allocated, links, id })
}

#[test]
fn hardlink_groups_are_counted_once() {
    let mut w = Walker::new(r"C:\".to_string(), WalkOptions::default());
    w.record_file(r"C:\a".to_string(), 5_000, linked(8_192, 3, Some(42)));
    w.record_file(r"C:\b".to_string(), 5_000, linked(8_192, 3, Some(42)));
    w.record_file(r"C:\c".to_string(), 5_000, linked(8_192, 3, Some(42)));
    let s = w.finish().summary;

    assert_eq!(s.files, 3);
    assert_eq!(s.hardlinked_files, 3);
    assert_eq!(s.hardlink_groups, 1);
    assert_eq!(s.hardlink_extra_names, 2);
    assert_eq!(s.allocated_bytes, 8_192);
    assert_eq!(s.logical_bytes, 5_000);
    assert_eq!(s.slack_bytes, 3_192);
}

#[test]
fn distinct_groups_each_count() {
    let mut w = Walker::new("root".to_string(), WalkOptions::default());
    w.record_file("a".to_string(), 10, linked(100, 2, Some(1)));
    w.record_file("b".to_string(), 20, linked(200, 2, Some(2)));
    w.record_file("c".to_string(), 10, linked(100, 2, Some(1)));
    let s = w.finish().summary;

    assert_eq!(s.hardlink_groups, 2);
    assert_eq!(s.hardlink_extra_names, 1);
    assert_eq!(s.allocated_bytes, 300);
}

#[test]
fn unknown_identity_is_counted_and_flagged() {
    let mut w = Walker::new("root".to_string(), WalkOptions::default());
    w.record_file("a".to_string(), 10, linked(100, 2, None));
    w.record_file("b".to_string(), 10, linked(100, 2, None));
    let s = w.finish().summary;

    assert_eq!(s.unknown_identity_files, 2);
    assert_eq!(s.hardlink_groups, 0);
    assert_eq!(s.allocated_bytes, 200);
}

#[test]
fn single_name_files_never_enter_a_group() {
    let mut w = Walker::new("root".to_string(), WalkOptions::default());
    w.record_file("a".to_string(), 10, linked(100, 1, Some(9)));
    w.record_file("b".to_string(), 10, linked(100, 1, Some(9)));
    let s = w.finish().summary;

    assert_eq!(s.hardlinked_files, 0);
    assert_eq!(s.allocated_bytes, 200);
}

#[test]
fn unreadable_files_count_at_their_reported_size() {
    let mut w = Walker::new("root".to_string(), collecting());
    w.record_file("locked".to_string(), 1_234, None);
    let walk = w.finish();

    assert_eq!(walk.summary.files, 1);
    assert_eq!(walk.summary.denied_files, 1);
    assert_eq!(walk.summary.denied_file_bytes, 1_234);
    assert_eq!(walk.summary.allocated_bytes, 1_234);
    assert_eq!(walk.summary.slack_bytes, 0);
    assert_eq!(walk.entries.len(), 1);
    assert_eq!(walk.entries[0].kind, EntryKind::File);
    assert_eq!(walk.entries[0].links, 1);
    assert_eq!(walk.entries[0].allocated, 1_234);
}

#[test]
fn compressed_files_add_no_slack() {
    let mut w = Walker::new("root".to_string(), WalkOptions::default());
    w.record_file("z".to_string(), 10_000, linked(3_000, 1, Some(1)));
    let s = w.finish().summary;
    assert_eq!(s.slack_bytes, 0);
    assert_eq!(s.allocated_bytes, 3_000);
}

#[test]
fn directories_are_scheduled_and_measured() {
    let mut w = Walker::new("root".to_string(), collecting());
    assert_eq!(w.next_directory(), Some("root".to_string()));
    w.record_directory(r"root\x".to_string(), Some(4_096));
    w.record_directory(r"root\y".to_string(), None);
    w.record_reparse(r"root\link".to_string(), 0);

    assert_eq!(w.next_directory(), Some(r"root\y".to_string()));
    assert_eq!(w.next_directory(), Some(r"root\x".to_string()));
    assert_eq!(w.next_directory(), None);

    let walk = w.finish();
    assert_eq!(walk.summary.directories, 2);
    assert_eq!(walk.summary.directory_bytes, 4_096);
    assert_eq!(walk.summary.reparse_points, 1);
    assert_eq!(walk.entries.len(), 3);
    assert_eq!(walk.entries[2].kind, EntryKind::Reparse);
}

#[test]
fn entries_are_not_kept_unless_asked() {
    let mut w = Walker::new("root".to_string(), WalkOptions::default());
    w.record_directory("d".to_string(), Some(1));
    w.record_file("f".to_string(), 1, linked(1, 1, None));
    w.record_reparse("r".to_string(), 1);
    assert!(w.finish().entries.is_empty());
}

#[test]
fn denied_directory_samples_are_capped() {
    let mut w = Walker::new("root".to_string(), WalkOptions::default());
    assert_eq!(w.next_directory(), Some("root".to_string()));
    for i in 0..20 {
        w.record_directory(format!("dir{i}"), None);
    }
    while let Some(_) = w.next_directory() {
        w.directory_denied();
    }
    let s = w.finish().summary;
    assert_eq!(s.denied_directories, 20);
    assert_eq!(s.denied_directory_samples.len(), DENIED_SAMPLE_LIMIT);
    // The stack hands out the last scheduled directory first.
    assert_eq!(s.denied_directory_samples[0], "dir19");
    assert_eq!(s.denied_directory_samples[11], "dir8");
}

#[test]
fn a_denied_directory_is_recorded_once() {
    let mut w = Walker::new("root".to_string(), WalkOptions::default());
    assert_eq!(w.next_directory(), Some("root".to_string()));
    w.directory_denied();
    // Nothing is current any more, so a second report changes nothing.
    w.directory_denied();
    let s = w.finish().summary;
    assert_eq!(s.denied_directories, 1);
    assert_eq!(s.denied_directory_samples, vec!["root".to_string()]);
}

#[test]
fn nothing_is_denied_before_a_directory_is_taken() {
    let mut w = Walker::new("root".to_string(), WalkOptions::default());
    w.directory_denied();
    assert_eq!(w.finish().summary.denied_directories, 0);
}

#[test]
fn room_for_a_file_is_checked_exactly() {
    let mut w = Walker::new("root".to_string(), WalkOptions::default());
    assert!(w.can_record_file(u64::MAX, linked(u64::MAX, 1, None)));
    w.record_file("big".to_string(), u64::MAX, linked(u64::MAX, 2, Some(5)));
    assert!(!w.can_record_file(1, linked(1, 1, None)));
    // A further name of the same group adds nothing, so it still fits.
    assert!(w.can_record_file(1, linked(1, 2, Some(5))));
}

#[test]
fn listing_entries_are_classified() {
    assert_eq!(classify_entry(".", FILE_ATTRIBUTE_DIRECTORY), None);
    assert_eq!(classify_entry("..", FILE_ATTRIBUTE_DIRECTORY), None);
    assert_eq!(classify_entry("...", 0), Some(EntryKind::File));
    assert_eq!(
        classify_entry("j", FILE_ATTRIBUTE_DIRECTORY | FILE_ATTRIBUTE_REPARSE_POINT),
        Some(EntryKind::Reparse)
    );
    assert_eq!(classify_entry("d", FILE_ATTRIBUTE_DIRECTORY), Some(EntryKind::Directory));
    assert_eq!(classify_entry("f", 0x20), Some(EntryKind::File));
}

#[test]
fn sizes_combine_from_two_halves() {
    assert_eq!(combine_size(0, 5), 5);
    assert_eq!(combine_size(1, 0), 1 << 32);
    assert_eq!(combine_size(u32::MAX, u32::MAX), u64::MAX);
}
