//! The decisions of the recursive directory walk.
//!
//! The walk produces the raw material for accounting: for every file, how many bytes it
//! reports, how many bytes it occupies, and how many names point at it. The directory
//! listing and the per-file queries are operating-system calls and are made by the caller;
//! this module holds the state that the walk carries and every decision it makes about what
//! it was told.
//!
//! Four choices shape it, each a correctness decision:
//!
//! 1. **Reparse points are never followed.** They are recorded and skipped.
//! 2. **The traversal is iterative.** Directories still to visit are kept on an explicit
//!    stack, so a deep tree cannot exhaust the call stack.
//! 3. **Hardlink groups are counted once, by file ID.** Several names for one set of data do
//!    not each occupy space.
//! 4. **Unreadable paths are recorded, not swallowed.**

use std::collections::HashSet;
use vstd::prelude::*;

use crate::accounting::sat_sub;

verus! {

broadcast use vstd::std_specs::hash::group_hash_axioms;

/// How many unreadable directory paths to retain for reporting.
pub const DENIED_SAMPLE_LIMIT: usize = 12;

/// `FILE_ATTRIBUTE_DIRECTORY`, as documented for `WIN32_FIND_DATAW::dwFileAttributes`.
pub const FILE_ATTRIBUTE_DIRECTORY: u32 = 0x10;

/// `FILE_ATTRIBUTE_REPARSE_POINT`, as documented for `WIN32_FIND_DATAW::dwFileAttributes`.
pub const FILE_ATTRIBUTE_REPARSE_POINT: u32 = 0x400;

/// What a directory entry is, from the scanner's point of view.
#[derive(Debug, Clone, Copy, PartialEq, Eq)]
pub enum EntryKind {
    File,
    Directory,
    /// A reparse point: junction, symlink, mount point, or a dedup/placeholder tag. Recorded,
    /// never followed.
    Reparse,
}

/// One entry discovered during a walk.
#[derive(Debug, Clone)]
pub struct ScannedEntry {
    pub path: String,
    pub kind: EntryKind,
    /// Bytes the file reports.
    pub logical: u64,
    /// Bytes the file actually occupies.
    pub allocated: u64,
    /// How many names point at this file.
    pub links: u32,
}

/// Totals gathered during a walk.
#[derive(Debug, Clone, PartialEq, Eq)]
pub struct WalkSummary {
    pub files: u64,
    pub directories: u64,
    pub reparse_points: u64,
    /// Directories that could not be opened, so their contents are entirely unknown.
    pub denied_directories: u64,
    /// The first of those directories, by path, at most [`DENIED_SAMPLE_LIMIT`] of them.
    pub denied_directory_samples: Vec<String>,
    /// Files that could not be opened.
    pub denied_files: u64,
    /// Reported size of those files: a lower bound on what they occupy.
    pub denied_file_bytes: u64,
    /// Summed logical size, counting each hardlink group once.
    pub logical_bytes: u64,
    /// Physical bytes occupied by file data, counting each hardlink group once.
    pub allocated_bytes: u64,
    /// Bytes lost to rounding files up to whole clusters.
    pub slack_bytes: u64,
    /// Physical bytes occupied by directories themselves.
    pub directory_bytes: u64,
    /// Files that have more than one name.
    pub hardlinked_files: u64,
    /// Distinct sets of data referenced by those files.
    pub hardlink_groups: u64,
    /// Additional names beyond the first, which contribute no storage.
    pub hardlink_extra_names: u64,
    /// Files whose identity could not be read, so a hardlink group involving them may have
    /// been counted more than once.
    pub unknown_identity_files: u64,
}

impl WalkSummary {
    /// Whether every count and total is zero and no sample is held.
    pub open spec fn is_empty(&self) -> bool {
        &&& self.files == 0
        &&& self.directories == 0
        &&& self.reparse_points == 0
        &&& self.denied_directories == 0
        &&& self.denied_directory_samples@.len() == 0
        &&& self.denied_files == 0
        &&& self.denied_file_bytes == 0
        &&& self.logical_bytes == 0
        &&& self.allocated_bytes == 0
        &&& self.slack_bytes == 0
        &&& self.directory_bytes == 0
        &&& self.hardlinked_files == 0
        &&& self.hardlink_groups == 0
        &&& self.hardlink_extra_names == 0
        &&& self.unknown_identity_files == 0
    }
}

impl Default for WalkSummary {
    fn default() -> (s: WalkSummary)
        ensures
            s.is_empty(),
    {
        WalkSummary {
            files: 0,
            directories: 0,
            reparse_points: 0,
            denied_directories: 0,
            denied_directory_samples: Vec::new(),
            denied_files: 0,
            denied_file_bytes: 0,
            logical_bytes: 0,
            allocated_bytes: 0,
            slack_bytes: 0,
            directory_bytes: 0,
            hardlinked_files: 0,
            hardlink_groups: 0,
            hardlink_extra_names: 0,
            unknown_identity_files: 0,
        }
    }
}

/// Controls what a walk collects.
#[derive(Debug, Clone, Copy)]
pub struct WalkOptions {
    /// Retain one record per entry. Off by default.
    pub collect_entries: bool,
}

impl Default for WalkOptions {
    fn default() -> (o: WalkOptions)
        ensures
            !o.collect_entries,
    {
        WalkOptions { collect_entries: false }
    }
}

/// The result of a walk.
#[derive(Debug, Clone)]
pub struct Walk {
    pub summary: WalkSummary,
    pub entries: Vec<ScannedEntry>,
}

/// What the filesystem reports about one file it could open.
#[derive(Debug, Clone, Copy, PartialEq, Eq)]
pub struct FileFacts {
    /// Bytes the file occupies.
    pub allocated: u64,
    /// Number of names pointing at the file's data.
    pub links: u32,
    /// Identity of the underlying data, when it could be read.
    pub id: Option<u128>,
}

/// One file as the walk observed it: the size its directory entry reported, and what the
/// filesystem said about it, or `None` when the file could not be opened.
pub type Observation = (u64, Option<FileFacts>);

/// The allocation the walk uses for an observed file: the measured figure, or the reported
/// size when the file could not be opened.
pub open spec fn observed_allocated(o: Observation) -> u64 {
    match o.1 {
        Some(f) => f.allocated,
        None => o.0,
    }
}

/// The link count the walk uses for an observed file; an unopened file counts as one name.
pub open spec fn observed_links(o: Observation) -> u32 {
    match o.1 {
        Some(f) => f.links,
        None => 1,
    }
}

/// Whether an observed file has more than one name.
pub open spec fn is_hardlinked(o: Observation) -> bool {
    observed_links(o) > 1
}

/// The hardlink group an observed file belongs to, when it has several names and its
/// identity is known.
pub open spec fn hardlink_group(o: Observation) -> Option<u128> {
    if is_hardlinked(o) {
        match o.1 {
            Some(f) => f.id,
            None => None,
        }
    } else {
        None
    }
}

/// Whether an observed file contributes storage, given the hardlink groups already counted:
/// it does unless it is a further name of a group seen before.
pub open spec fn adds_storage(o: Observation, seen: Set<u128>) -> bool {
    match hardlink_group(o) {
        Some(id) => !seen.contains(id),
        None => true,
    }
}

/// The hardlink groups among a sequence of observed files.
pub open spec fn groups_seen(h: Seq<Observation>) -> Set<u128>
    decreases h.len(),
{
    if h.len() == 0 {
        Set::empty()
    } else {
        let prev = groups_seen(h.drop_last());
        match hardlink_group(h.last()) {
            Some(id) => prev.insert(id),
            None => prev,
        }
    }
}

/// Whether the last file of a non-empty sequence contributes storage.
pub open spec fn last_adds_storage(h: Seq<Observation>) -> bool {
    adds_storage(h.last(), groups_seen(h.drop_last()))
}

/// Allocated bytes of a sequence of observed files, each hardlink group counted once.
pub open spec fn counted_allocated(h: Seq<Observation>) -> int
    decreases h.len(),
{
    if h.len() == 0 {
        0
    } else {
        counted_allocated(h.drop_last()) + if last_adds_storage(h) {
            observed_allocated(h.last()) as int
        } else {
            0
        }
    }
}

/// Logical bytes of a sequence of observed files, each hardlink group counted once.
pub open spec fn counted_logical(h: Seq<Observation>) -> int
    decreases h.len(),
{
    if h.len() == 0 {
        0
    } else {
        counted_logical(h.drop_last()) + if last_adds_storage(h) {
            h.last().0 as int
        } else {
            0
        }
    }
}

/// Slack of a sequence of observed files, each hardlink group counted once.
pub open spec fn counted_slack(h: Seq<Observation>) -> int
    decreases h.len(),
{
    if h.len() == 0 {
        0
    } else {
        counted_slack(h.drop_last()) + if last_adds_storage(h) {
            if observed_allocated(h.last()) >= h.last().0 {
                observed_allocated(h.last()) - h.last().0
            } else {
                0
            }
        } else {
            0
        }
    }
}

/// Allocated bytes of a sequence of observed files with every name counted separately.
pub open spec fn naive_allocated(h: Seq<Observation>) -> int
    decreases h.len(),
{
    if h.len() == 0 {
        0
    } else {
        naive_allocated(h.drop_last()) + observed_allocated(h.last()) as int
    }
}

/// Whether a listing entry is the directory itself or its parent, which every listing holds
/// and which would loop the walk.
pub open spec fn is_dot_entry(name: Seq<char>) -> bool {
    name == seq!['.'] || name == seq!['.', '.']
}

/// How the walk treats a listing entry, from its name and attribute bits: `None` for the
/// directory itself and its parent, otherwise reparse points first, then directories, then
/// files.
pub open spec fn spec_classify(name: Seq<char>, attributes: u32) -> Option<EntryKind> {
    if is_dot_entry(name) {
        None
    } else if attributes & FILE_ATTRIBUTE_REPARSE_POINT != 0 {
        Some(EntryKind::Reparse)
    } else if attributes & FILE_ATTRIBUTE_DIRECTORY != 0 {
        Some(EntryKind::Directory)
    } else {
        Some(EntryKind::File)
    }
}

/// What a listing entry is, whatever its other attribute bits (read-only, hidden, system,
/// archive, ...): the directory itself and its parent are skipped; otherwise the reparse bit
/// makes a reparse point, never descended into; otherwise the directory bit makes a directory
/// to descend into; and anything else is a file.
pub proof fn lemma_classification(name: Seq<char>, attributes: u32)
    ensures
        (name == seq!['.'] || name == seq!['.', '.']) <==> spec_classify(name, attributes) is None,
        spec_classify(name, attributes) == Some(EntryKind::Reparse) <==> !(name == seq!['.']
            || name == seq!['.', '.']) && attributes & 0x400u32 != 0,
        spec_classify(name, attributes) == Some(EntryKind::Directory) <==> !(name == seq!['.']
            || name == seq!['.', '.']) && attributes & 0x400u32 == 0 && attributes & 0x10u32
            != 0,
        spec_classify(name, attributes) == Some(EntryKind::File) <==> !(name == seq!['.']
            || name == seq!['.', '.']) && attributes & 0x400u32 == 0 && attributes & 0x10u32
            == 0,
{
}

/// A read-only, hidden or system directory is still a directory: the directory bit decides,
/// whatever other bits are set, as long as the entry is not a reparse point.
pub proof fn lemma_directory_bit_decides(name: Seq<char>, attributes: u32, others: u32)
    requires
        !(name == seq!['.'] || name == seq!['.', '.']),
        others & 0x410u32 == 0,
    ensures
        spec_classify(name, 0x10u32 | others) == Some(EntryKind::Directory),
        spec_classify(name, others) == Some(EntryKind::File),
        spec_classify(name, 0x400u32 | others) == Some(EntryKind::Reparse),
{
    assert((0x10u32 | others) & 0x400u32 == 0 && (0x10u32 | others) & 0x10u32 != 0)
        by (bit_vector)
        requires
            others & 0x410u32 == 0,
    ;
    assert(others & 0x400u32 == 0 && others & 0x10u32 == 0) by (bit_vector)
        requires
            others & 0x410u32 == 0,
    ;
    assert((0x400u32 | others) & 0x400u32 != 0) by (bit_vector);
}

/// Classify a directory-listing entry. A reparse point is never a directory to descend into,
/// whatever its other attributes say.
pub fn classify_entry(name: &str, attributes: u32) -> (kind: Option<EntryKind>)
    ensures
        kind == spec_classify(name@, attributes),
        (name@ == seq!['.'] || name@ == seq!['.', '.']) <==> kind is None,
        kind == Some(EntryKind::Reparse) <==> !(name@ == seq!['.'] || name@ == seq!['.', '.'])
            && attributes & 0x400u32 != 0,
        kind == Some(EntryKind::Directory) <==> !(name@ == seq!['.'] || name@ == seq!['.', '.'])
            && attributes & 0x400u32 == 0 && attributes & 0x10u32 != 0,
        kind == Some(EntryKind::File) <==> !(name@ == seq!['.'] || name@ == seq!['.', '.'])
            && attributes & 0x400u32 == 0 && attributes & 0x10u32 == 0,
{
    let n = name.unicode_len();
    let dot = if n == 1 {
        name.get_char(0) == '.'
    } else if n == 2 {
        name.get_char(0) == '.' && name.get_char(1) == '.'
    } else {
        false
    };
    proof {
        if n == 1 && dot {
            assert(name@ =~= seq!['.']);
        }
        if n == 2 && dot {
            assert(name@ =~= seq!['.', '.']);
        }
    }
    if dot {
        None
    } else if attributes & FILE_ATTRIBUTE_REPARSE_POINT != 0 {
        Some(EntryKind::Reparse)
    } else if attributes & FILE_ATTRIBUTE_DIRECTORY != 0 {
        Some(EntryKind::Directory)
    } else {
        Some(EntryKind::File)
    }
}

/// The 64-bit size a listing reports in two 32-bit halves.
pub fn combine_size(high: u32, low: u32) -> (size: u64)
    ensures
        size == high as int * 0x1_0000_0000 + low as int,
{
    let size = ((high as u64) << 32u64) | (low as u64);
    assert(((high as u64) << 32u64) | (low as u64) == high as u64 * 0x1_0000_0000u64 + low as u64)
        by (bit_vector);
    size
}

/// Recording files one after another never attributes more than counting every name
/// separately would: a further name of a hardlink group adds nothing.
pub proof fn lemma_counted_within_naive(h: Seq<Observation>)
    ensures
        0 <= counted_allocated(h) <= naive_allocated(h),
    decreases h.len(),
{
    if h.len() > 0 {
        lemma_counted_within_naive(h.drop_last());
    }
}

/// Without any file of several names, every file counts in full: the hardlink-aware total is
/// the per-name total.
pub proof fn lemma_counted_is_naive_without_hardlinks(h: Seq<Observation>)
    requires
        forall|i: int| 0 <= i < h.len() ==> !is_hardlinked(#[trigger] h[i]),
    ensures
        counted_allocated(h) == naive_allocated(h),
        groups_seen(h) == Set::<u128>::empty(),
    decreases h.len(),
{
    if h.len() > 0 {
        let p = h.drop_last();
        assert forall|i: int| 0 <= i < p.len() implies !is_hardlinked(#[trigger] p[i]) by {
            assert(p[i] == h[i]);
        }
        lemma_counted_is_naive_without_hardlinks(p);
        assert(!is_hardlinked(h[h.len() - 1]));
    }
}

/// A further name of a hardlink group already counted changes none of the byte totals, and
/// the group stays counted.
pub proof fn lemma_extra_name_adds_nothing(h: Seq<Observation>, o: Observation)
    requires
        hardlink_group(o) is Some,
        groups_seen(h).contains(hardlink_group(o)->0),
    ensures
        counted_allocated(h.push(o)) == counted_allocated(h),
        counted_logical(h.push(o)) == counted_logical(h),
        counted_slack(h.push(o)) == counted_slack(h),
        groups_seen(h.push(o)) == groups_seen(h),
{
    assert(h.push(o).drop_last() =~= h);
    assert(groups_seen(h).insert(hardlink_group(o)->0) =~= groups_seen(h));
}

/// The groups a walk has counted are finite.
pub proof fn lemma_groups_seen_finite(h: Seq<Observation>)
    ensures
        groups_seen(h).finite(),
    decreases h.len(),
{
    if h.len() > 0 {
        lemma_groups_seen_finite(h.drop_last());
    }
}

/// The paths a sequence of strings holds.
pub open spec fn views(v: Seq<String>) -> Seq<Seq<char>> {
    v.map_values(|p: String| p@)
}

/// How many unreadable directories are named among `n`: all of them up to the limit.
pub open spec fn sample_count(n: int) -> int {
    if n <= DENIED_SAMPLE_LIMIT {
        n
    } else {
        DENIED_SAMPLE_LIMIT as int
    }
}

/// When no directory was scheduled twice, no unreadable directory is named twice among the
/// samples: a directory is taken at most once, and only the directory just taken can be
/// found unreadable.
pub proof fn lemma_samples_distinct(w: &Walker)
    requires
        w.wf(),
        w.scheduled@.no_duplicates(),
    ensures
        views(w.summary.denied_directory_samples@).no_duplicates(),
{
    let tk = w.taken@;
    let all = tk + views(w.pending@);
    assert forall|i: int, j: int|
        0 <= i < tk.len() && 0 <= j < tk.len() && i != j implies tk[i] != tk[j] by {
        assert(all[i] == tk[i]);
        assert(all[j] == tk[j]);
    }
    let den = w.denied@;
    let k = sample_count(den.len() as int);
    let t = den.take(k);
    assert forall|i: int, j: int|
        0 <= i < t.len() && 0 <= j < t.len() && i != j implies t[i] != t[j] by {
        assert(t[i] == den[i]);
        assert(t[j] == den[j]);
    }
}

/// The state of a walk in progress.
pub struct Walker {
    pub options: WalkOptions,
    pub summary: WalkSummary,
    pub entries: Vec<ScannedEntry>,
    /// Directories still to visit; the last one is visited next.
    pub pending: Vec<String>,
    /// Identity of every hardlink group already counted.
    pub counted_groups: HashSet<u128>,
    /// The directory most recently taken to be visited, until it is found unreadable.
    pub current: Option<String>,
    /// Every file recorded so far, in order.
    pub observed: Ghost<Seq<Observation>>,
    /// Every directory ever scheduled to be visited, the root first, in order.
    pub scheduled: Ghost<Seq<Seq<char>>>,
    /// Every directory taken to be visited so far, in order.
    pub taken: Ghost<Seq<Seq<char>>>,
    /// Every directory found unreadable so far, in order.
    pub denied: Ghost<Seq<Seq<char>>>,
}

impl Walker {
    /// The invariant every step of a walk keeps.
    pub open spec fn wf(&self) -> bool {
        let h = self.observed@;
        let s = self.summary;
        &&& self.counted_groups@ == groups_seen(h)
        &&& groups_seen(h).finite()
        &&& s.hardlink_groups == groups_seen(h).len()
        &&& s.hardlinked_files == s.hardlink_groups + s.hardlink_extra_names
            + s.unknown_identity_files
        &&& s.files == h.len()
        &&& !self.options.collect_entries ==> self.entries@.len() == 0
        &&& s.hardlinked_files <= s.files
        &&& s.denied_files <= s.files
        &&& s.allocated_bytes == counted_allocated(h)
        &&& s.logical_bytes == counted_logical(h)
        &&& s.slack_bytes == counted_slack(h)
        &&& s.slack_bytes <= s.allocated_bytes
        &&& s.denied_file_bytes <= s.logical_bytes
        &&& self.dirs_wf()
    }

    /// How the directories scheduled, taken, pending and denied relate: every directory taken
    /// or pending was scheduled, and if no directory was scheduled twice then none is taken or
    /// pending twice; every denied directory was taken, and if none was taken twice none is
    /// denied twice; the current directory is the last one taken and not yet denied; and the
    /// samples are the first denied directories, up to the limit.
    pub open spec fn dirs_wf(&self) -> bool {
        let sch = self.scheduled@;
        let tk = self.taken@;
        let pend = views(self.pending@);
        let den = self.denied@;
        let s = self.summary;
        &&& forall|i: int| 0 <= i < tk.len() ==> sch.contains(#[trigger] tk[i])
        &&& forall|i: int| 0 <= i < pend.len() ==> sch.contains(#[trigger] pend[i])
        &&& sch.no_duplicates() ==> (tk + pend).no_duplicates()
        &&& forall|i: int| 0 <= i < den.len() ==> tk.contains(#[trigger] den[i])
        &&& tk.no_duplicates() ==> den.no_duplicates()
        &&& (self.current matches Some(c) ==> tk.len() > 0 && c@ == tk.last() && (
        tk.no_duplicates() ==> !den.contains(c@)))
        &&& den.len() == s.denied_directories
        &&& views(s.denied_directory_samples@) == den.take(sample_count(den.len() as int))
    }

    /// Whether recording a file with these facts keeps every count within `u64`.
    pub open spec fn file_fits(&self, logical: u64, facts: Option<FileFacts>) -> bool {
        let o: Observation = (logical, facts);
        &&& self.summary.files < u64::MAX
        &&& adds_storage(o, self.counted_groups@) ==> {
            &&& self.summary.logical_bytes + logical <= u64::MAX
            &&& self.summary.allocated_bytes + observed_allocated(o) <= u64::MAX
        }
    }

    /// Whether recording a file with these facts keeps every count within `u64`.
    pub fn can_record_file(&self, logical: u64, facts: Option<FileFacts>) -> (b: bool)
        requires
            self.wf(),
        ensures
            b == self.file_fits(logical, facts),
    {
        if self.summary.files == u64::MAX {
            return false;
        }
        let allocated: u64 = match facts {
            Some(f) => f.allocated,
            None => logical,
        };
        let adds = match facts {
            Some(f) => if f.links > 1 {
                match f.id {
                    Some(id) => !self.counted_groups.contains(&id),
                    None => true,
                }
            } else {
                true
            },
            None => true,
        };
        if !adds {
            return true;
        }
        logical <= u64::MAX - self.summary.logical_bytes && allocated <= u64::MAX
            - self.summary.allocated_bytes
    }

    /// Record a file, attributing its storage to the volume exactly once.
    ///
    /// `facts` is what the filesystem reported when the file was opened, or `None` when it
    /// could not be opened. An unopened file is still counted, at the size its directory entry
    /// reported, and recorded as denied. A file with several names contributes storage only
    /// the first time its hardlink group is seen; when its identity is unknown it is counted
    /// and the uncertainty recorded.
    pub fn record_file(&mut self, path: String, logical: u64, facts: Option<FileFacts>)
        requires
            old(self).wf(),
            old(self).file_fits(logical, facts),
        ensures
            ({
                let o: Observation = (logical, facts);
                let old_s = old(self).summary;
                let s = final(self).summary;
                let adds = adds_storage(o, old(self).counted_groups@);
                let allocated = observed_allocated(o);
                &&& final(self).wf()
                &&& final(self).observed@ == old(self).observed@.push(o)
                &&& s.files == old_s.files + 1
                &&& s.denied_files == old_s.denied_files + if facts is None {
                    1int
                } else {
                    0
                }
                &&& s.denied_file_bytes == old_s.denied_file_bytes + if facts is None {
                    logical as int
                } else {
                    0
                }
                &&& s.hardlinked_files == old_s.hardlinked_files + if is_hardlinked(o) {
                    1int
                } else {
                    0
                }
                &&& s.hardlink_groups == old_s.hardlink_groups + if is_hardlinked(o)
                    && hardlink_group(o) is Some && adds {
                    1int
                } else {
                    0
                }
                &&& s.hardlink_extra_names == old_s.hardlink_extra_names + if !adds {
                    1int
                } else {
                    0
                }
                &&& s.unknown_identity_files == old_s.unknown_identity_files + if is_hardlinked(o)
                    && hardlink_group(o) is None {
                    1int
                } else {
                    0
                }
                &&& s.logical_bytes == old_s.logical_bytes + if adds {
                    logical as int
                } else {
                    0
                }
                &&& s.allocated_bytes == old_s.allocated_bytes + if adds {
                    allocated as int
                } else {
                    0
                }
                &&& s.slack_bytes == old_s.slack_bytes + if adds {
                    sat_sub(allocated as int, logical as int)
                } else {
                    0
                }
                &&& s.directories == old_s.directories
                &&& s.reparse_points == old_s.reparse_points
                &&& s.directory_bytes == old_s.directory_bytes
                &&& s.denied_directories == old_s.denied_directories
                &&& s.denied_directory_samples == old_s.denied_directory_samples
                &&& final(self).counted_groups@ == match hardlink_group(o) {
                    Some(id) => old(self).counted_groups@.insert(id),
                    None => old(self).counted_groups@,
                }
                &&& final(self).entries@ == if old(self).options.collect_entries {
                    old(self).entries@.push(
                        ScannedEntry {
                            path,
                            kind: EntryKind::File,
                            logical,
                            allocated,
                            links: observed_links(o),
                        },
                    )
                } else {
                    old(self).entries@
                }
            }),
            final(self).pending@ == old(self).pending@,
            final(self).options == old(self).options,
            final(self).scheduled@ == old(self).scheduled@,
            final(self).taken@ == old(self).taken@,
            final(self).denied@ == old(self).denied@,
            final(self).current == old(self).current,
    {
        let ghost o: Observation = (logical, facts);
        let ghost h = self.observed@;
        proof {
            assert(h.push(o).drop_last() =~= h);
            assert(h.push(o).last() == o);
        }
        self.summary.files = self.summary.files + 1;

        let (allocated, links, id) = match facts {
            Some(f) => (f.allocated, f.links, f.id),
            None => {
                self.summary.denied_files = self.summary.denied_files + 1;
                self.summary.denied_file_bytes = self.summary.denied_file_bytes + logical;
                (logical, 1u32, None)
            },
        };

        let mut counted = true;

        if links > 1 {
            self.summary.hardlinked_files = self.summary.hardlinked_files + 1;
            match id {
                Some(id) => {
                    if self.counted_groups.insert(id) {
                        proof {
                            vstd::set::axiom_set_insert_len(groups_seen(h), id);
                        }
                        self.summary.hardlink_groups = self.summary.hardlink_groups + 1;
                    } else {
                        self.summary.hardlink_extra_names = self.summary.hardlink_extra_names + 1;
                        counted = false;
                    }
                },
                None => {
                    self.summary.unknown_identity_files = self.summary.unknown_identity_files + 1;
                },
            }
        }
        if counted {
            self.summary.logical_bytes = self.summary.logical_bytes + logical;
            self.summary.allocated_bytes = self.summary.allocated_bytes + allocated;
            self.summary.slack_bytes = self.summary.slack_bytes + allocated.saturating_sub(
                logical,
            );
        }
        if self.options.collect_entries {
            self.entries.push(
                ScannedEntry { path, kind: EntryKind::File, logical, allocated, links },
            );
        }
        self.observed = Ghost(self.observed@.push(o));
    }

    /// Start a walk at `root`.
    pub fn new(root: String, options: WalkOptions) -> (w: Walker)
        ensures
            w.wf(),
            w.options == options,
            w.summary.is_empty(),
            w.entries@.len() == 0,
            w.pending@ == seq![root],
            w.current is None,
            w.observed@.len() == 0,
            w.scheduled@ == seq![root@],
            w.taken@.len() == 0,
            w.denied@.len() == 0,
    {
        let ghost root_path = root@;
        let mut pending = Vec::new();
        pending.push(root);
        let w = Walker {
            options,
            summary: WalkSummary::default(),
            entries: Vec::new(),
            pending,
            counted_groups: HashSet::new(),
            current: None,
            observed: Ghost(Seq::empty()),
            scheduled: Ghost(Seq::empty().push(root_path)),
            taken: Ghost(Seq::empty()),
            denied: Ghost(Seq::empty()),
        };
        proof {
            assert(groups_seen(w.observed@) == Set::<u128>::empty());
            assert(views(w.pending@) =~= seq![root_path]);
            assert(w.scheduled@.contains(root_path)) by {
                assert(w.scheduled@[0] == root_path);
            }
            assert(Seq::<Seq<char>>::empty() + views(w.pending@) =~= seq![root_path]);
            assert(views(w.summary.denied_directory_samples@) =~= w.denied@.take(0));
        }
        w
    }

    /// Take the next directory to visit, if any remain. It becomes the current directory,
    /// the one [`Walker::directory_denied`] records when it cannot be opened.
    pub fn next_directory(&mut self) -> (dir: Option<String>)
        requires
            old(self).wf(),
        ensures
            final(self).wf(),
            final(self).summary == old(self).summary,
            final(self).entries@ == old(self).entries@,
            final(self).observed@ == old(self).observed@,
            final(self).options == old(self).options,
            final(self).scheduled@ == old(self).scheduled@,
            final(self).denied@ == old(self).denied@,
            old(self).pending@.len() == 0 ==> {
                &&& dir is None
                &&& final(self).pending@ == old(self).pending@
                &&& final(self).current is None
                &&& final(self).taken@ == old(self).taken@
            },
            old(self).pending@.len() > 0 ==> {
                &&& dir == Some(old(self).pending@.last())
                &&& final(self).pending@ == old(self).pending@.drop_last()
                &&& final(self).current == dir
                &&& final(self).taken@ == old(self).taken@.push(old(self).pending@.last()@)
            },
    {
        let ghost tk = self.taken@;
        let ghost pend = views(self.pending@);
        let ghost sch = self.scheduled@;
        let ghost den = self.denied@;
        match self.pending.pop() {
            Some(d) => {
                let ghost x = d@;
                proof {
                    let npend = views(self.pending@);
                    assert(pend =~= npend.push(x));
                    let old_all = tk + pend;
                    let new_all = tk.push(x) + npend;
                    assert(new_all.len() == old_all.len());
                    // `x` moves from the end of the pending paths to the end of the taken
                    // ones; every other path keeps its place.
                    if sch.no_duplicates() {
                        assert forall|i: int, j: int|
                            0 <= i < new_all.len() && 0 <= j < new_all.len() && i != j implies
                            new_all[i] != new_all[j] by {
                            let oi = if i < tk.len() {
                                i
                            } else if i == tk.len() {
                                old_all.len() - 1
                            } else {
                                i - 1
                            };
                            let oj = if j < tk.len() {
                                j
                            } else if j == tk.len() {
                                old_all.len() - 1
                            } else {
                                j - 1
                            };
                            assert(new_all[i] == old_all[oi]);
                            assert(new_all[j] == old_all[oj]);
                        }
                        assert(new_all.no_duplicates());
                        assert forall|i: int, j: int|
                            0 <= i < tk.len() + 1 && 0 <= j < tk.len() + 1 && i != j implies
                            tk.push(x)[i] != tk.push(x)[j] by {
                            assert(tk.push(x)[i] == new_all[i]);
                            assert(tk.push(x)[j] == new_all[j]);
                        }
                    }
                    if tk.push(x).no_duplicates() {
                        assert(!den.contains(x)) by {
                            if den.contains(x) {
                                let k = choose|k: int| 0 <= k < den.len() && den[k] == x;
                                assert(tk.contains(den[k]));
                                let m = choose|m: int| 0 <= m < tk.len() && tk[m] == x;
                                assert(tk.push(x)[m] == tk.push(x)[tk.len() as int]);
                            }
                        }
                    }
                    assert forall|i: int| 0 <= i < tk.push(x).len() implies sch.contains(
                        #[trigger] tk.push(x)[i],
                    ) by {
                        if i == tk.len() {
                            assert(pend[pend.len() - 1] == x);
                        }
                    }
                    assert forall|i: int| 0 <= i < npend.len() implies sch.contains(
                        #[trigger] npend[i],
                    ) by {
                        assert(npend[i] == pend[i]);
                    }
                    assert forall|i: int| 0 <= i < den.len() implies tk.push(x).contains(
                        #[trigger] den[i],
                    ) by {
                        assert(tk.contains(den[i]));
                        let m = choose|m: int| 0 <= m < tk.len() && tk[m] == den[i];
                        assert(tk.push(x)[m] == den[i]);
                    }
                    if tk.push(x).no_duplicates() {
                        assert(tk.no_duplicates()) by {
                            assert forall|i: int, j: int|
                                0 <= i < tk.len() && 0 <= j < tk.len() && i != j implies tk[i]
                                != tk[j] by {
                                assert(tk.push(x)[i] == tk[i]);
                                assert(tk.push(x)[j] == tk[j]);
                            }
                        }
                    }
                }
                self.current = Some(d.clone());
                self.taken = Ghost(self.taken@.push(x));
                Some(d)
            },
            None => {
                self.current = None;
                None
            },
        }
    }

    /// Record that the current directory could not be opened. Its contents are unknown; the
    /// first few such paths are kept as samples. Without a current directory nothing changes.
    pub fn directory_denied(&mut self)
        requires
            old(self).wf(),
            old(self).summary.denied_directories < u64::MAX,
        ensures
            final(self).wf(),
            final(self).entries@ == old(self).entries@,
            final(self).pending@ == old(self).pending@,
            final(self).observed@ == old(self).observed@,
            final(self).options == old(self).options,
            final(self).scheduled@ == old(self).scheduled@,
            final(self).taken@ == old(self).taken@,
            final(self).current is None,
            old(self).current is None ==> final(self).summary == old(self).summary
                && final(self).denied@ == old(self).denied@,
            old(self).current matches Some(dir) ==> {
                &&& final(self).denied@ == old(self).denied@.push(dir@)
                &&& final(self).summary.denied_directories == old(
                    self,
                ).summary.denied_directories + 1
                &&& final(self).summary.denied_directory_samples@ == if old(
                    self,
                ).summary.denied_directory_samples@.len() < DENIED_SAMPLE_LIMIT {
                    old(self).summary.denied_directory_samples@.push(dir)
                } else {
                    old(self).summary.denied_directory_samples@
                }
                &&& final(self).summary == (WalkSummary {
                    denied_directories: final(self).summary.denied_directories,
                    denied_directory_samples: final(self).summary.denied_directory_samples,
                    ..old(self).summary
                })
            },
    {
        let ghost den = self.denied@;
        let ghost tk = self.taken@;
        let ghost samples = self.summary.denied_directory_samples@;
        if let Some(dir) = &self.current {
            let dir = dir.clone();
            let ghost d = dir@;
            self.current = None;
            self.summary.denied_directories = self.summary.denied_directories + 1;
            if self.summary.denied_directory_samples.len() < DENIED_SAMPLE_LIMIT {
                self.summary.denied_directory_samples.push(dir);
                proof {
                    assert(views(samples.push(dir)) =~= views(samples).push(d));
                    assert(den.push(d).take(sample_count(den.len() + 1int)) =~= den.take(
                        sample_count(den.len() as int),
                    ).push(d));
                }
            } else {
                proof {
                    assert(den.push(d).take(sample_count(den.len() + 1int)) =~= den.take(
                        sample_count(den.len() as int),
                    ));
                }
            }
            proof {
                let nd = den.push(d);
                assert forall|i: int| 0 <= i < nd.len() implies tk.contains(#[trigger] nd[i]) by {
                    if i < den.len() {
                        assert(nd[i] == den[i]);
                    } else {
                        assert(tk[tk.len() - 1] == d);
                    }
                }
                if tk.no_duplicates() {
                    assert forall|i: int, j: int|
                        0 <= i < nd.len() && 0 <= j < nd.len() && i != j implies nd[i]
                        != nd[j] by {
                        if i == den.len() {
                            assert(!den.contains(d));
                            assert(nd[j] == den[j]);
                        } else if j == den.len() {
                            assert(!den.contains(d));
                            assert(nd[i] == den[i]);
                        } else {
                            assert(nd[i] == den[i]);
                            assert(nd[j] == den[j]);
                        }
                    }
                }
            }
            self.denied = Ghost(self.denied@.push(d));
        }
    }

    /// Record a reparse point. It is counted, and never followed.
    pub fn record_reparse(&mut self, path: String, logical: u64)
        requires
            old(self).wf(),
            old(self).summary.reparse_points < u64::MAX,
        ensures
            final(self).wf(),
            final(self).summary == (WalkSummary {
                reparse_points: (old(self).summary.reparse_points + 1) as u64,
                ..old(self).summary
            }),
            final(self).entries@ == if old(self).options.collect_entries {
                old(self).entries@.push(
                    ScannedEntry {
                        path,
                        kind: EntryKind::Reparse,
                        logical,
                        allocated: 0,
                        links: 0,
                    },
                )
            } else {
                old(self).entries@
            },
            final(self).pending@ == old(self).pending@,
            final(self).observed@ == old(self).observed@,
            final(self).options == old(self).options,
            final(self).scheduled@ == old(self).scheduled@,
            final(self).taken@ == old(self).taken@,
            final(self).denied@ == old(self).denied@,
            final(self).current == old(self).current,
    {
        self.summary.reparse_points = self.summary.reparse_points + 1;
        if self.options.collect_entries {
            self.entries.push(
                ScannedEntry { path, kind: EntryKind::Reparse, logical, allocated: 0, links: 0 },
            );
        }
    }

    /// Record a subdirectory and schedule it to be visited. `allocated` is what the directory
    /// itself occupies, or `None` when that could not be measured; it then contributes no
    /// measured overhead but is still traversed.
    pub fn record_directory(&mut self, path: String, allocated: Option<u64>)
        requires
            old(self).wf(),
            old(self).summary.directories < u64::MAX,
            old(self).summary.directory_bytes + match allocated {
                Some(a) => a as int,
                None => 0,
            } <= u64::MAX,
        ensures
            ({
                let a: u64 = match allocated {
                    Some(a) => a,
                    None => 0,
                };
                &&& final(self).wf()
                &&& final(self).summary == (WalkSummary {
                    directories: (old(self).summary.directories + 1) as u64,
                    directory_bytes: (old(self).summary.directory_bytes + a) as u64,
                    ..old(self).summary
                })
                &&& final(self).entries@ == if old(self).options.collect_entries {
                    old(self).entries@.push(
                        ScannedEntry {
                            path,
                            kind: EntryKind::Directory,
                            logical: 0,
                            allocated: a,
                            links: 0,
                        },
                    )
                } else {
                    old(self).entries@
                }
            }),
            final(self).pending@ == old(self).pending@.push(path),
            final(self).scheduled@ == old(self).scheduled@.push(path@),
            final(self).taken@ == old(self).taken@,
            final(self).denied@ == old(self).denied@,
            final(self).current == old(self).current,
            final(self).observed@ == old(self).observed@,
            final(self).options == old(self).options,
    {
        let ghost sch = self.scheduled@;
        let ghost tk = self.taken@;
        let ghost pend = views(self.pending@);
        let ghost p = path@;
        let a: u64 = match allocated {
            Some(a) => a,
            None => 0,
        };
        self.summary.directories = self.summary.directories + 1;
        self.summary.directory_bytes = self.summary.directory_bytes + a;
        if self.options.collect_entries {
            self.entries.push(
                ScannedEntry {
                    path: path.clone(),
                    kind: EntryKind::Directory,
                    logical: 0,
                    allocated: a,
                    links: 0,
                },
            );
        }
        self.pending.push(path);
        proof {
            let nsch = sch.push(p);
            let npend = views(self.pending@);
            assert(npend =~= pend.push(p));
            assert forall|i: int| 0 <= i < tk.len() implies nsch.contains(#[trigger] tk[i]) by {
                let m = choose|m: int| 0 <= m < sch.len() && sch[m] == tk[i];
                assert(nsch[m] == tk[i]);
            }
            assert forall|i: int| 0 <= i < npend.len() implies nsch.contains(
                #[trigger] npend[i],
            ) by {
                if i < pend.len() {
                    assert(npend[i] == pend[i]);
                    let m = choose|m: int| 0 <= m < sch.len() && sch[m] == pend[i];
                    assert(nsch[m] == pend[i]);
                } else {
                    assert(nsch[sch.len() as int] == p);
                }
            }
            if nsch.no_duplicates() {
                assert(sch.no_duplicates()) by {
                    assert forall|i: int, j: int|
                        0 <= i < sch.len() && 0 <= j < sch.len() && i != j implies sch[i]
                        != sch[j] by {
                        assert(nsch[i] == sch[i]);
                        assert(nsch[j] == sch[j]);
                    }
                }
                let old_all = tk + pend;
                let new_all = tk + npend;
                assert(new_all =~= old_all.push(p));
                assert(!old_all.contains(p)) by {
                    if old_all.contains(p) {
                        let k = choose|k: int| 0 <= k < old_all.len() && old_all[k] == p;
                        if k < tk.len() {
                            assert(tk[k] == p);
                            assert(sch.contains(tk[k]));
                        } else {
                            assert(pend[k - tk.len()] == p);
                            assert(sch.contains(pend[k - tk.len()]));
                        }
                        let m = choose|m: int| 0 <= m < sch.len() && sch[m] == p;
                        assert(nsch[m] == nsch[sch.len() as int]);
                    }
                }
                assert forall|i: int, j: int|
                    0 <= i < new_all.len() && 0 <= j < new_all.len() && i != j implies new_all[i]
                    != new_all[j] by {
                    if i < old_all.len() && j < old_all.len() {
                        assert(new_all[i] == old_all[i]);
                        assert(new_all[j] == old_all[j]);
                    } else if i < old_all.len() {
                        assert(new_all[i] == old_all[i]);
                    } else {
                        assert(new_all[j] == old_all[j]);
                    }
                }
            }
        }
        self.scheduled = Ghost(self.scheduled@.push(p));
    }

    /// End the walk, handing back what it gathered. A walk that did not collect entries
    /// hands back none, and the totals keep the walk's invariant: every name of several is a
    /// new group, a further name, or of unknown identity, and at most
    /// [`DENIED_SAMPLE_LIMIT`] unreadable directories are named.
    pub fn finish(self) -> (w: Walk)
        requires
            self.wf(),
        ensures
            w.summary == self.summary,
            w.entries@ == self.entries@,
            !self.options.collect_entries ==> w.entries@.len() == 0,
            self.scheduled@.no_duplicates() ==> views(
                w.summary.denied_directory_samples@,
            ).no_duplicates(),
            w.summary.hardlinked_files == w.summary.hardlink_groups
                + w.summary.hardlink_extra_names + w.summary.unknown_identity_files,
            w.summary.hardlinked_files <= w.summary.files,
            w.summary.denied_files <= w.summary.files,
            w.summary.slack_bytes <= w.summary.allocated_bytes,
            w.summary.denied_directory_samples@.len() == if w.summary.denied_directories
                <= DENIED_SAMPLE_LIMIT {
                w.summary.denied_directories as int
            } else {
                DENIED_SAMPLE_LIMIT as int
            },
    {
        assert(views(self.summary.denied_directory_samples@).len()
            == self.summary.denied_directory_samples@.len());
        proof {
            if self.scheduled@.no_duplicates() {
                lemma_samples_distinct(&self);
            }
        }
        Walk { summary: self.summary, entries: self.entries }
    }
}

} // verus!
