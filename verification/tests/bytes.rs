use housemanfs::bytes::{ExtentBytes, Ownership};

const GB: u64 = 1_000_000_000;

#[test]
fn slack_is_the_gap_between_logical_and_allocated() {
    let size = ExtentBytes::new(5_000, 8_192);
    assert_eq!(size.slack(), 3_192);
}

#[test]
fn compressed_files_have_no_slack() {
    let size = ExtentBytes::new(10 * GB, 3 * GB);
    assert_eq!(size.slack(), 0);
    assert!(size.is_compressed_or_sparse());
}

#[test]
fn a_sparse_file_is_not_its_logical_size() {
    let size = ExtentBytes::new(100 * GB, 2 * GB);
    assert!(size.is_compressed_or_sparse());
}

#[test]
fn a_file_occupying_its_size_is_neither_compressed_nor_sparse() {
    let size = ExtentBytes::new(4_096, 4_096);
    assert!(!size.is_compressed_or_sparse());
    assert_eq!(size.slack(), 0);
}

#[test]
fn only_uniquely_owned_bytes_are_reclaimable() {
    let size = ExtentBytes::new(4 * GB, 4 * GB);

    assert_eq!(Ownership::Unique.reclaimable_bytes(size), Some(4 * GB));
    assert_eq!(
        Ownership::Shared { sharers: 2 }.reclaimable_bytes(size),
        None,
        "deleting one hardlink frees nothing"
    );
    assert_eq!(Ownership::Unknown.reclaimable_bytes(size), None);
}

#[test]
fn reclaimable_is_the_allocated_size_not_the_logical_one() {
    let size = ExtentBytes::new(100 * GB, 2 * GB);
    assert_eq!(Ownership::Unique.reclaimable_bytes(size), Some(2 * GB));
}

#[test]
fn shared_extents_are_never_counted_as_reclaimable() {
    let size = ExtentBytes::new(10 * GB, 10 * GB);
    let files = [
        Ownership::Unique,
        Ownership::Shared { sharers: 3 },
        Ownership::Shared { sharers: 3 },
    ];

    let naive: u64 = files.iter().map(|_| size.allocated).sum();
    let honest: u64 = files
        .iter()
        .filter_map(|ownership| ownership.reclaimable_bytes(size))
        .sum();

    assert_eq!(naive, 30 * GB);
    assert_eq!(honest, 10 * GB);
}

#[test]
fn unknown_is_not_treated_as_zero_or_as_allocated() {
    let size = ExtentBytes::new(2 * GB, 2 * GB);
    let result = Ownership::Unknown.reclaimable_bytes(size);

    assert_ne!(
        result,
        Some(0),
        "unknown is not the same as freeing nothing"
    );
    assert_ne!(result, Some(2 * GB), "unknown is not the same as unique");
    assert_eq!(result, None);
}
