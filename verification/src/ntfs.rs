//! NTFS volume metadata.
//!
//! A directory walk cannot see the filesystem's own bookkeeping. On NTFS that is not a small
//! omission: the master file table alone is roughly a kilobyte per file, and the change
//! journal can be configured to hundreds of megabytes more. The control-code queries that
//! measure them are made by the caller with a volume handle; this module turns what they
//! report into [`NtfsMetadata`], and builds the paths those queries open.

use vstd::prelude::*;
use vstd::string::StringExecFns;
use vstd::string::StrSliceExecFns;

use crate::text::push_char;

verus! {

/// The parts of NTFS bookkeeping that occupy space but are not files.
#[derive(Debug, Clone, Copy, PartialEq, Eq)]
pub struct NtfsMetadata {
    /// Bytes the master file table currently occupies.
    pub mft_bytes: u64,
    /// Bytes per file record, for context on the figure above.
    pub bytes_per_record: u32,
    /// Bytes reserved for the master file table's growth zone: reserved, not occupied.
    pub mft_zone_bytes: u64,
    /// Maximum size the change journal may grow to.
    pub usn_journal_max_bytes: u64,
    /// Bytes per cluster, as the filesystem reports it.
    pub bytes_per_cluster: u32,
}

/// The fields of `NTFS_VOLUME_DATA_BUFFER` that the metadata figures are computed from.
#[derive(Debug, Clone, Copy, PartialEq, Eq)]
pub struct NtfsVolumeData {
    pub bytes_per_cluster: u32,
    pub bytes_per_file_record_segment: u32,
    pub mft_valid_data_length: i64,
    pub mft_zone_start: i64,
    pub mft_zone_end: i64,
}

/// One of NTFS's own system files.
#[derive(Debug, Clone)]
pub struct SystemFile {
    pub name: String,
    /// Bytes actually occupied, or `None` if the file could not be measured.
    pub allocated: Option<u64>,
}

/// Clusters in the MFT zone: its end minus its start, clamped to `0..=i64::MAX`.
pub open spec fn zone_clusters(v: NtfsVolumeData) -> int {
    let d = v.mft_zone_end - v.mft_zone_start;
    if d < 0 {
        0
    } else if d > i64::MAX {
        i64::MAX as int
    } else {
        d
    }
}

impl NtfsMetadata {
    /// The metadata figures a volume's NTFS data and change-journal query yield.
    ///
    /// `journal_maximum_size` is the journal's configured maximum, or `None` when the volume
    /// has no change journal, which is then reported as zero rather than as an error. A
    /// negative valid-data length counts as zero; the zone is its clusters times the cluster
    /// size, saturating.
    pub fn from_volume_data(volume: &NtfsVolumeData, journal_maximum_size: Option<u64>) -> (m:
        NtfsMetadata)
        ensures
            m.mft_bytes == if volume.mft_valid_data_length < 0 {
                0
            } else {
                volume.mft_valid_data_length as int
            },
            m.bytes_per_record == volume.bytes_per_file_record_segment,
            m.mft_zone_bytes == if zone_clusters(*volume) * volume.bytes_per_cluster
                <= u64::MAX {
                zone_clusters(*volume) * volume.bytes_per_cluster
            } else {
                u64::MAX as int
            },
            m.usn_journal_max_bytes == match journal_maximum_size {
                Some(size) => size,
                None => 0,
            },
            m.bytes_per_cluster == volume.bytes_per_cluster,
    {
        let zone: u64 = if volume.mft_zone_end <= volume.mft_zone_start {
            0
        } else {
            match volume.mft_zone_end.checked_sub(volume.mft_zone_start) {
                Some(d) => d as u64,
                None => i64::MAX as u64,
            }
        };
        let zone_bytes: u64 = match zone.checked_mul(volume.bytes_per_cluster as u64) {
            Some(b) => b,
            None => u64::MAX,
        };
        let mft_bytes: u64 = if volume.mft_valid_data_length < 0 {
            0
        } else {
            volume.mft_valid_data_length as u64
        };
        let journal_bytes: u64 = match journal_maximum_size {
            Some(size) => size,
            None => 0,
        };
        NtfsMetadata {
            mft_bytes,
            bytes_per_record: volume.bytes_per_file_record_segment,
            mft_zone_bytes: zone_bytes,
            usn_journal_max_bytes: journal_bytes,
            bytes_per_cluster: volume.bytes_per_cluster,
        }
    }
}

/// Whether a character separates path components.
pub open spec fn is_separator(c: char) -> bool {
    c == '\\' || c == '/'
}

/// A path with every trailing separator removed.
pub open spec fn trim_trailing_separators(s: Seq<char>) -> Seq<char>
    decreases s.len(),
{
    if s.len() > 0 && is_separator(s.last()) {
        trim_trailing_separators(s.drop_last())
    } else {
        s
    }
}

proof fn lemma_trim_is_prefix(s: Seq<char>, k: int)
    requires
        0 <= k <= s.len(),
        forall|j: int| k <= j < s.len() ==> is_separator(#[trigger] s[j]),
        k == 0 || !is_separator(s[k - 1]),
    ensures
        trim_trailing_separators(s) == s.subrange(0, k),
    decreases s.len(),
{
    if s.len() > k {
        lemma_trim_is_prefix(s.drop_last(), k);
        assert(s.drop_last().subrange(0, k) =~= s.subrange(0, k));
    } else {
        assert(s.subrange(0, k) =~= s);
        if s.len() > 0 {
            assert(s.last() == s[k - 1]);
        }
    }
}

/// The path with its trailing separators removed.
pub fn trim_separators(s: &str) -> (t: &str)
    ensures
        t@ == trim_trailing_separators(s@),
{
    let n = s.unicode_len();
    let mut k = n;
    while k > 0 && (s.get_char(k - 1) == '\\' || s.get_char(k - 1) == '/')
        invariant
            k <= n,
            n == s@.len(),
            forall|j: int| k <= j < n ==> is_separator(#[trigger] s@[j]),
        decreases k,
    {
        k = k - 1;
    }
    proof {
        lemma_trim_is_prefix(s@, k as int);
    }
    s.substring_char(0, k)
}

/// The device path that opens the volume a drive-letter mount refers to.
///
/// A mount such as `C:\` becomes `\\.\C:`: after trailing separators are removed, a path
/// whose second byte is `:` (so whose first character is a single ASCII byte and whose second
/// character is `:`) names a drive, and the device path is `\\.\` followed by those two
/// characters. Any other path is returned trimmed, so that opening it fails for anything
/// that is not a volume rather than silently answering for something else.
pub open spec fn spec_volume_device_path(mount: Seq<char>) -> Seq<char> {
    let t = trim_trailing_separators(mount);
    if t.len() >= 2 && (t[0] as int) < 0x80 && t[1] == ':' {
        seq!['\\', '\\', '.', '\\', t[0], t[1]]
    } else {
        t
    }
}

/// Removing trailing separators keeps a prefix of the path, drops only `\` and `/`
/// characters, and leaves no separator at the end.
pub proof fn lemma_trim_characterized(s: Seq<char>)
    ensures
        trim_trailing_separators(s).len() <= s.len(),
        trim_trailing_separators(s) == s.subrange(0, trim_trailing_separators(s).len() as int),
        forall|j: int|
            trim_trailing_separators(s).len() <= j < s.len() ==> (#[trigger] s[j] == '\\' || s[j]
                == '/'),
        trim_trailing_separators(s).len() == 0 || !(trim_trailing_separators(s).last() == '\\'
            || trim_trailing_separators(s).last() == '/'),
    decreases s.len(),
{
    if s.len() > 0 && is_separator(s.last()) {
        lemma_trim_characterized(s.drop_last());
        let t = trim_trailing_separators(s.drop_last());
        assert(s.drop_last().subrange(0, t.len() as int) =~= s.subrange(0, t.len() as int));
        assert forall|j: int| t.len() <= j < s.len() implies (#[trigger] s[j] == '\\' || s[j]
            == '/') by {
            if j < s.len() - 1 {
                assert(s.drop_last()[j] == s[j]);
            }
        }
    } else {
        assert(s.subrange(0, s.len() as int) =~= s);
    }
}

/// A path that names a drive (its first character a single ASCII byte, its second a colon)
/// maps to the device path `\\.\` followed by those two characters, whatever follows the
/// colon; any other path maps to itself without its trailing separators.
pub proof fn lemma_device_path_of_drive(mount: Seq<char>)
    ensures
        (mount.len() >= 2 && (mount[0] as int) < 0x80 && mount[1] == ':')
            ==> spec_volume_device_path(mount) == seq!['\\', '\\', '.', '\\', mount[0], mount[1]],
        !(mount.len() >= 2 && (mount[0] as int) < 0x80 && mount[1] == ':')
            ==> spec_volume_device_path(mount) == trim_trailing_separators(mount),
{
    lemma_trim_characterized(mount);
    let t = trim_trailing_separators(mount);
    if mount.len() >= 2 && mount[1] == ':' {
        if t.len() < 2 {
            if t.len() <= 1 {
                assert(mount[1] == '\\' || mount[1] == '/');
            }
        }
        assert(t[0] == mount[0]);
        assert(t[1] == mount[1]);
    }
    if t.len() >= 2 {
        assert(t[0] == mount[0]);
        assert(t[1] == mount[1]);
    }
}

/// Turn a mount path such as `C:\` into the device path the volume handle needs, `\\.\C:`.
pub fn volume_device_path(mount: &str) -> (p: String)
    ensures
        p@ == spec_volume_device_path(mount@),
        (mount@.len() >= 2 && (mount@[0] as int) < 0x80 && mount@[1] == ':') ==> p@ == seq![
            '\\',
            '\\',
            '.',
            '\\',
            mount@[0],
            mount@[1],
        ],
{
    proof {
        lemma_device_path_of_drive(mount@);
    }
    let trimmed = trim_separators(mount);
    let n = trimmed.unicode_len();
    if n >= 2 {
        let first = trimmed.get_char(0);
        let second = trimmed.get_char(1);
        if (first as u32) < 0x80 && second == ':' {
            let mut p = String::new();
            push_char(&mut p, '\\');
            push_char(&mut p, '\\');
            push_char(&mut p, '.');
            push_char(&mut p, '\\');
            push_char(&mut p, first);
            push_char(&mut p, second);
            assert(p@ =~= spec_volume_device_path(mount@));
            return p;
        }
    }
    trimmed.to_owned()
}

/// The path of a system file `name`, relative to the root of the volume mounted at `mount`.
pub open spec fn spec_system_file_path(mount: Seq<char>, name: Seq<char>) -> Seq<char> {
    trim_trailing_separators(mount) + seq!['\\'] + name
}

/// The path of the system file `name` on the volume mounted at `mount`.
pub fn system_file_path(mount: &str, name: &str) -> (p: String)
    ensures
        p@ == spec_system_file_path(mount@, name@),
{
    let mut p = trim_separators(mount).to_owned();
    push_char(&mut p, '\\');
    p.append(name);
    p
}

/// The NTFS system files that a directory walk cannot see, by their names in the root
/// directory. NTFS excludes them from enumeration. `$MFT` is not among them: it is measured
/// on its own, and counting it twice would overstate the total.
pub fn system_file_names() -> (names: Vec<&'static str>)
    ensures
        names@.len() == 11,
        names@[0]@ == "$MFTMirr"@,
        names@[1]@ == "$LogFile"@,
        names@[2]@ == "$Bitmap"@,
        names@[3]@ == "$Boot"@,
        names@[4]@ == "$BadClus"@,
        names@[5]@ == "$Secure"@,
        names@[6]@ == "$UpCase"@,
        names@[7]@ == "$Extend\\$ObjId"@,
        names@[8]@ == "$Extend\\$Quota"@,
        names@[9]@ == "$Extend\\$Reparse"@,
        names@[10]@ == "$Extend\\$UsnJrnl"@,
{
    let mut names = Vec::new();
    names.push("$MFTMirr");
    names.push("$LogFile");
    names.push("$Bitmap");
    names.push("$Boot");
    names.push("$BadClus");
    names.push("$Secure");
    names.push("$UpCase");
    names.push("$Extend\\$ObjId");
    names.push("$Extend\\$Quota");
    names.push("$Extend\\$Reparse");
    names.push("$Extend\\$UsnJrnl");
    names
}

/// The path of the master file table itself on the volume mounted at `mount`.
pub fn mft_path(mount: &str) -> (p: String)
    ensures
        p@ == spec_system_file_path(mount@, "$MFT"@),
{
    system_file_path(mount, "$MFT")
}

} // verus!
