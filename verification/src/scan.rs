//! Whole-volume scan decisions: whether a path is a volume root, and the accounting a walk
//! and the volume's own figures add up to.

use vstd::prelude::*;
use vstd::string::StrSliceExecFns;

use crate::accounting::{cap_u64, Accounting, Denied};
use crate::ntfs::{lemma_trim_characterized, trim_separators, trim_trailing_separators, NtfsMetadata};
use crate::walk::WalkSummary;

verus! {

/// Whether a character is an ASCII letter.
pub open spec fn is_ascii_letter(c: char) -> bool {
    ('a' <= c <= 'z') || ('A' <= c <= 'Z')
}

/// Whether a path names a whole volume by drive letter, such as `C:` or `D:\`: after its
/// trailing separators are removed it is exactly an ASCII letter and a colon.
pub open spec fn spec_is_volume_root(path: Seq<char>) -> bool {
    let t = trim_trailing_separators(path);
    t.len() == 2 && is_ascii_letter(t[0]) && t[1] == ':'
}

/// A path is a volume root exactly when it is an ASCII letter, a colon, and nothing after
/// them but separators. A path with anything else after the colon, such as `C:\Users\`, is
/// never a root, however many separators end it.
pub proof fn lemma_volume_root_characterized(path: Seq<char>)
    ensures
        spec_is_volume_root(path) <==> {
            &&& path.len() >= 2
            &&& (('a' <= path[0] <= 'z') || ('A' <= path[0] <= 'Z'))
            &&& path[1] == ':'
            &&& forall|j: int| 2 <= j < path.len() ==> (#[trigger] path[j] == '\\' || path[j]
                == '/')
        },
{
    lemma_trim_characterized(path);
    let t = trim_trailing_separators(path);
    if path.len() >= 2 && path[1] == ':' && forall|j: int|
        2 <= j < path.len() ==> (#[trigger] path[j] == '\\' || path[j] == '/') {
        assert(t.len() >= 2) by {
            if t.len() < 2 {
                assert(path[1] == '\\' || path[1] == '/');
            }
        }
        assert(t.len() <= 2) by {
            if t.len() > 2 {
                assert(t.last() == path[t.len() - 1]);
                assert(path[t.len() - 1] == '\\' || path[t.len() - 1] == '/');
            }
        }
        assert(t[0] == path[0]);
        assert(t[1] == path[1]);
    }
    if spec_is_volume_root(path) {
        assert(t[0] == path[0]);
        assert(t[1] == path[1]);
    }
}

/// The metadata of a scan's accounting is what is in use: the master file table plus the
/// change journal's maximum, saturating. The MFT zone is reserved, not occupied, and never
/// enters it, nor do the record and cluster sizes.
pub proof fn lemma_known_metadata_is_mft_and_journal(metadata: Option<NtfsMetadata>)
    ensures
        metadata is None ==> spec_known_metadata(metadata) is None,
        metadata matches Some(m) ==> spec_known_metadata(metadata) == Some(
            if m.mft_bytes + m.usn_journal_max_bytes <= u64::MAX {
                (m.mft_bytes + m.usn_journal_max_bytes) as u64
            } else {
                u64::MAX
            },
        ),
        metadata matches Some(m) ==> forall|zone: u64, record: u32, cluster: u32|
            spec_known_metadata(
                Some(
                    NtfsMetadata {
                        mft_zone_bytes: zone,
                        bytes_per_record: record,
                        bytes_per_cluster: cluster,
                        ..m
                    },
                ),
            ) == spec_known_metadata(metadata),
{
}

/// Whether a path refers to a whole volume. A residual only means anything when the scan
/// covered a whole volume.
pub fn is_volume_root(path: &str) -> (b: bool)
    ensures
        b == spec_is_volume_root(path@),
        b <==> {
            &&& path@.len() >= 2
            &&& (('a' <= path@[0] <= 'z') || ('A' <= path@[0] <= 'Z'))
            &&& path@[1] == ':'
            &&& forall|j: int| 2 <= j < path@.len() ==> (#[trigger] path@[j] == '\\' || path@[j]
                == '/')
        },
{
    proof {
        lemma_volume_root_characterized(path@);
    }
    let t = trim_separators(path);
    if t.unicode_len() != 2 {
        return false;
    }
    let first = t.get_char(0);
    let second = t.get_char(1);
    (('a' <= first && first <= 'z') || ('A' <= first && first <= 'Z')) && second == ':'
}

/// The metadata figure that enters the accounting: the master file table plus the change
/// journal's maximum, saturating; `None` when the metadata was not measured.
pub open spec fn spec_known_metadata(metadata: Option<NtfsMetadata>) -> Option<u64> {
    match metadata {
        Some(m) => Some(cap_u64(m.mft_bytes + m.usn_journal_max_bytes) as u64),
        None => None,
    }
}

/// The accounting a whole-volume walk yields, set against the volume's own capacity and
/// free space.
///
/// File data is the walk's hardlink-aware allocation. Alternate data streams and directory
/// overhead are not enumerated yet and are left at zero, so that the residual absorbs them
/// honestly rather than being flattered by an estimate. Every unreadable directory and file
/// counts as one denied path.
pub fn accounting_from_scan(
    total_bytes: u64,
    free_bytes: u64,
    summary: &WalkSummary,
    metadata: Option<NtfsMetadata>,
) -> (a: Accounting)
    ensures
        a.total == total_bytes,
        a.free == free_bytes,
        a.file_bytes == summary.allocated_bytes,
        a.stream_bytes == 0,
        a.directory_bytes == 0,
        a.known_metadata == spec_known_metadata(metadata),
        metadata is None ==> a.known_metadata is None,
        metadata matches Some(m) ==> a.known_metadata == Some(
            if m.mft_bytes + m.usn_journal_max_bytes <= u64::MAX {
                (m.mft_bytes + m.usn_journal_max_bytes) as u64
            } else {
                u64::MAX
            },
        ),
        a.denied.paths == cap_u64(summary.denied_directories + summary.denied_files),
{
    let known_metadata = match metadata {
        Some(m) => Some(m.mft_bytes.saturating_add(m.usn_journal_max_bytes)),
        None => None,
    };
    Accounting {
        total: total_bytes,
        free: free_bytes,
        file_bytes: summary.allocated_bytes,
        stream_bytes: 0,
        directory_bytes: 0,
        known_metadata,
        denied: Denied::new(summary.denied_directories.saturating_add(summary.denied_files)),
    }
}

} // verus!
