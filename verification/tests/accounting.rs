use housemanfs::accounting::{Accounting, Denied, Finding};

const GB: u64 = 1_000_000_000;

fn sample() -> Accounting {
    Accounting {
        total: 500 * GB,
        free: 88 * GB,
        file_bytes: 380 * GB,
        stream_bytes: 4 * GB,
        directory_bytes: 2 * GB,
        known_metadata: Some(15 * GB),
        denied: Denied::new(0),
    }
}

#[test]
fn used_is_capacity_minus_free() {
    assert_eq!(sample().used(), 412 * GB);
}

#[test]
fn attributed_is_the_sum_of_the_parts() {
    assert_eq!(sample().attributed(), 401 * GB);
}

#[test]
fn residual_is_used_minus_attributed() {
    // 412 used, 401 attributed, so 11 GB is unexplained.
    assert_eq!(sample().residual(), 11 * GB);
}

#[test]
fn over_attribution_does_not_underflow() {
    let mut accounting = sample();
    accounting.file_bytes = 900 * GB;

    assert_eq!(accounting.residual(), 0);
}

#[test]
fn unmeasurable_metadata_is_not_the_same_as_zero_metadata() {
    let mut accounting = sample();
    accounting.known_metadata = None;

    assert_eq!(accounting.attributed(), 386 * GB);
    assert_eq!(accounting.residual(), 26 * GB);
}

#[test]
fn zero_metadata_is_measured_and_contributes_nothing() {
    let mut accounting = sample();
    accounting.known_metadata = Some(0);

    assert_eq!(accounting.attributed(), 386 * GB);
    assert_ne!(accounting.known_metadata, None);
}

#[test]
fn free_beyond_capacity_means_nothing_used() {
    let mut accounting = sample();
    accounting.free = 600 * GB;

    assert_eq!(accounting.used(), 0);
    assert_eq!(accounting.residual(), 0);
}

#[test]
fn attributed_saturates_instead_of_wrapping() {
    let mut accounting = sample();
    accounting.file_bytes = u64::MAX - GB;
    accounting.stream_bytes = 2 * GB;

    assert_eq!(accounting.attributed(), u64::MAX);
    assert_eq!(accounting.residual(), 0);
}

#[test]
fn denied_any_counts_paths() {
    assert!(!Denied::new(0).any());
    assert!(Denied::new(1).any());
    assert_eq!(Denied::new(1_284).paths, 1_284);
}

#[test]
fn within_tolerance_finding_is_explained_with_the_residual() {
    let accounting = sample();
    assert_eq!(
        accounting.finding(true),
        Finding::Explained { residual: 11 * GB }
    );
}

#[test]
fn beyond_tolerance_finding_reports_the_cause() {
    let mut accounting = sample();
    accounting.denied = Denied::new(1_284);

    match accounting.finding(false) {
        Finding::Unexplained {
            residual,
            unreadable_paths,
        } => {
            assert_eq!(residual, 11 * GB);
            assert_eq!(unreadable_paths, 1_284);
        }
        other => panic!("expected Unexplained, got {other:?}"),
    }
}
