use housemanfs::ntfs::{
    mft_path, system_file_names, system_file_path, volume_device_path, NtfsMetadata,
    NtfsVolumeData,
};
use housemanfs::scan::{accounting_from_scan, is_volume_root};
use housemanfs::text::{from_wide, to_wide};
use housemanfs::volume::{cluster_size, derive_volume_id, VolumeInfo};
use housemanfs::walk::WalkSummary;

#[test]
fn device_path_from_drive_letter() {
    assert_eq!(volume_device_path(r"C:\"), r"\\.\C:");
    assert_eq!(volume_device_path("D:"), r"\\.\D:");
    assert_eq!(volume_device_path("e:/"), r"\\.\e:");
}

#[test]
fn device_path_falls_back_to_the_trimmed_path() {
    assert_eq!(volume_device_path(r"\\?\Volume{x}\"), r"\\?\Volume{x}");
    assert_eq!(volume_device_path("C"), "C");
    assert_eq!(volume_device_path(r"\/\"), "");
    assert_eq!(volume_device_path("é:"), "é:");
}

#[test]
fn volume_id_is_deterministic_and_property_derived() {
    let a = derive_volume_id(0x1234_5678, 4096, 500_000_000_000);
    let b = derive_volume_id(0x1234_5678, 4096, 500_000_000_000);
    assert_eq!(a, b);
}

#[test]
fn different_properties_produce_different_ids() {
    let a = derive_volume_id(1, 4096, 100);
    let b = derive_volume_id(2, 4096, 100);
    let c = derive_volume_id(1, 65536, 100);
    assert_ne!(a, b);
    assert_ne!(a, c);
}

#[test]
fn volume_id_lays_out_serial_cluster_and_capacity_little_endian() {
    let id = derive_volume_id(0x1234_5678, 4096, 0x0102_0304_0506_0708);
    assert_eq!(
        id.as_bytes(),
        &[0x78, 0x56, 0x34, 0x12, 0x00, 0x10, 0x00, 0x00, 0x08, 0x07, 0x06, 0x05, 0x04, 0x03, 0x02, 0x01]
    );
}

#[test]
fn wide_conversion_round_trips_and_terminates() {
    let wide = to_wide("C:\\");
    assert_eq!(wide.last(), Some(&0));
    assert_eq!(from_wide(&wide), "C:\\");
}

#[test]
fn wide_conversion_encodes_supplementary_characters_as_pairs() {
    let wide = to_wide("a𝄞");
    assert_eq!(wide, vec![0x61, 0xD834, 0xDD1E, 0]);
    assert_eq!(from_wide(&wide), "a𝄞");
}

#[test]
fn from_wide_stops_at_the_first_nul_and_replaces_lone_surrogates() {
    assert_eq!(from_wide(&[0x41, 0x42, 0, 0x43]), "AB");
    assert_eq!(from_wide(&[0x41, 0x42]), "AB");
    assert_eq!(from_wide(&[0xD800, 0x41, 0]), "\u{FFFD}A");
}

#[test]
fn cluster_size_multiplies_and_saturates() {
    assert_eq!(cluster_size(8, 512), 4096);
    assert_eq!(cluster_size(u32::MAX, 2), u32::MAX);
}

#[test]
fn volume_info_assembles_the_reported_figures() {
    let mut name = [0u16; 64];
    for (i, c) in "NTFS".encode_utf16().enumerate() {
        name[i] = c;
    }
    let v = VolumeInfo::from_reported(r"C:\", &name, 0xABCD, 1_000, 400, 300, 8, 512);
    assert_eq!(v.root, r"C:\");
    assert_eq!(v.filesystem, "NTFS");
    assert_eq!(v.cluster_bytes, 4096);
    assert_eq!(v.volume_id, derive_volume_id(0xABCD, 4096, 1_000));
    assert_eq!(v.used_bytes(), 600);
    assert!(v.quotas_in_force());
}

#[test]
fn ntfs_metadata_from_volume_data() {
    let volume = NtfsVolumeData {
        bytes_per_cluster: 4096,
        bytes_per_file_record_segment: 1024,
        mft_valid_data_length: 1_000_000,
        mft_zone_start: 100,
        mft_zone_end: 300,
    };
    let m = NtfsMetadata::from_volume_data(&volume, Some(32 * 1024 * 1024));
    assert_eq!(m.mft_bytes, 1_000_000);
    assert_eq!(m.bytes_per_record, 1024);
    assert_eq!(m.mft_zone_bytes, 200 * 4096);
    assert_eq!(m.usn_journal_max_bytes, 32 * 1024 * 1024);
    assert_eq!(m.bytes_per_cluster, 4096);
}

#[test]
fn ntfs_metadata_clamps_odd_figures() {
    let volume = NtfsVolumeData {
        bytes_per_cluster: 4096,
        bytes_per_file_record_segment: 1024,
        mft_valid_data_length: -5,
        mft_zone_start: 300,
        mft_zone_end: 100,
    };
    let m = NtfsMetadata::from_volume_data(&volume, None);
    assert_eq!(m.mft_bytes, 0);
    assert_eq!(m.mft_zone_bytes, 0);
    assert_eq!(m.usn_journal_max_bytes, 0);

    let huge = NtfsVolumeData {
        mft_zone_start: i64::MIN,
        mft_zone_end: i64::MAX,
        ..volume
    };
    assert_eq!(NtfsMetadata::from_volume_data(&huge, None).mft_zone_bytes, u64::MAX);
}

#[test]
fn system_file_paths_are_rooted_at_the_trimmed_mount() {
    assert_eq!(system_file_path(r"C:\", "$Boot"), r"C:\$Boot");
    assert_eq!(system_file_path("D:", r"$Extend\$UsnJrnl"), r"D:\$Extend\$UsnJrnl");
    assert_eq!(mft_path("E:/"), r"E:\$MFT");
    let names = system_file_names();
    assert_eq!(names.len(), 11);
    assert!(!names.contains(&"$MFT"));
    assert_eq!(names[0], "$MFTMirr");
}

#[test]
fn volume_roots_are_a_letter_and_a_colon() {
    assert!(is_volume_root("C:"));
    assert!(is_volume_root(r"d:\"));
    assert!(is_volume_root("E:/"));
    assert!(!is_volume_root(r"C:\Users"));
    assert!(!is_volume_root("1:"));
    assert!(!is_volume_root("é:"));
    assert!(!is_volume_root(""));
}

#[test]
fn scan_accounting_takes_the_walk_and_the_metadata() {
    let mut summary = WalkSummary::default();
    summary.allocated_bytes = 700;
    summary.denied_directories = 2;
    summary.denied_files = 3;
    let metadata = NtfsMetadata {
        mft_bytes: 50,
        bytes_per_record: 1024,
        mft_zone_bytes: 0,
        usn_journal_max_bytes: 25,
        bytes_per_cluster: 4096,
    };
    let a = accounting_from_scan(1_000, 200, &summary, Some(metadata));
    assert_eq!(a.file_bytes, 700);
    assert_eq!(a.known_metadata, Some(75));
    assert_eq!(a.denied.paths, 5);
    assert_eq!(a.residual(), 25);

    let b = accounting_from_scan(1_000, 200, &summary, None);
    assert_eq!(b.known_metadata, None);
    assert_eq!(b.residual(), 100);
}
