//! Storage accounting for individual files.
//!
//! The most common way for a disk tool to be wrong is to assume that every file owns its own
//! bytes. Hard links, deduplication and block cloning make several names share one set of
//! extents, sparse files report far more than they occupy, and compression makes the
//! allocated size smaller than the logical one. [`Ownership::reclaimable_bytes`] refuses to
//! answer when the answer is not determinable, rather than giving a plausible guess.

use vstd::prelude::*;

verus! {

/// How a file's bytes relate to the bytes of every other file on the volume.
#[derive(Debug, Clone, Copy, PartialEq, Eq)]
pub enum Ownership {
    /// This file exclusively owns its extents. Deleting it frees its allocated size.
    Unique,
    /// The extents are reachable from somewhere else as well: `sharers` names or files
    /// reference the same data, and deleting one of them frees nothing.
    Shared { sharers: u32 },
    /// Ownership could not be determined. A distinct state, never rounded off to `Unique`.
    Unknown,
}

/// A file's size, measured two ways.
#[derive(Debug, Clone, Copy, PartialEq, Eq)]
pub struct ExtentBytes {
    /// Bytes readable from the file.
    pub logical: u64,
    /// Bytes actually occupied on the volume.
    pub allocated: u64,
}

impl Ownership {
    /// How many bytes deleting a file of this ownership and size would free, when that can
    /// be determined.
    pub open spec fn spec_reclaimable(self, size: ExtentBytes) -> Option<u64> {
        match self {
            Ownership::Unique => Some(size.allocated),
            _ => None,
        }
    }

    /// How many bytes deleting this file would free, if that can be determined.
    ///
    /// `None` means unknown: never zero, and never the allocated size.
    pub fn reclaimable_bytes(&self, size: ExtentBytes) -> (r: Option<u64>)
        ensures
            r == self.spec_reclaimable(size),
            r is Some <==> *self is Unique,
            r matches Some(b) ==> b == size.allocated,
    {
        match self {
            Ownership::Unique => Some(size.allocated),
            Ownership::Shared { .. } | Ownership::Unknown => None,
        }
    }
}

impl ExtentBytes {
    pub fn new(logical: u64, allocated: u64) -> (e: ExtentBytes)
        ensures
            e.logical == logical,
            e.allocated == allocated,
    {
        ExtentBytes { logical, allocated }
    }

    /// Bytes wasted rounding the file up to whole allocation units: allocated minus logical,
    /// or zero when the file occupies less than it reports.
    pub fn slack(&self) -> (s: u64)
        ensures
            s == if self.allocated >= self.logical {
                self.allocated - self.logical
            } else {
                0
            },
    {
        self.allocated.saturating_sub(self.logical)
    }

    /// True when the file occupies less than it reports, which means it is compressed or
    /// sparse. Such a file's logical size must never be used for a reclaim estimate.
    pub fn is_compressed_or_sparse(&self) -> (b: bool)
        ensures
            b == (self.allocated < self.logical),
    {
        self.allocated < self.logical
    }
}

/// A compressed or sparse file has no slack, and a file with slack occupies exactly its
/// logical size plus that slack.
pub proof fn lemma_slack_and_compression(e: ExtentBytes)
    ensures
        e.allocated < e.logical ==> (if e.allocated >= e.logical {
            e.allocated - e.logical
        } else {
            0
        }) == 0,
        e.allocated >= e.logical ==> e.logical + (e.allocated - e.logical) == e.allocated,
{
}

/// Only a file that owns its data exclusively has a reclaimable figure, and that figure is
/// its allocated size. A shared file, however many sharers, and a file of unknown ownership
/// have none: unknown, never zero, never the allocated size.
pub proof fn lemma_reclaimable_only_when_unique(o: Ownership, size: ExtentBytes)
    ensures
        o.spec_reclaimable(size) is Some <==> o is Unique,
        o is Unique ==> o.spec_reclaimable(size) == Some(size.allocated),
        forall|n: u32| (Ownership::Shared { sharers: n }).spec_reclaimable(size) is None,
        Ownership::Unknown.spec_reclaimable(size) is None,
{
}

/// Bytes deleting every listed file would free, counting only what can be determined.
pub open spec fn reclaimable_total(files: Seq<(Ownership, ExtentBytes)>) -> int
    decreases files.len(),
{
    if files.len() == 0 {
        0
    } else {
        reclaimable_total(files.drop_last()) + match files.last().0.spec_reclaimable(
            files.last().1,
        ) {
            Some(b) => b as int,
            None => 0,
        }
    }
}

/// Allocated bytes of every listed file, each counted as if it owned its data.
pub open spec fn apparent_total(files: Seq<(Ownership, ExtentBytes)>) -> int
    decreases files.len(),
{
    if files.len() == 0 {
        0
    } else {
        apparent_total(files.drop_last()) + files.last().1.allocated
    }
}

/// Allocated bytes of the listed files that own their data exclusively.
pub open spec fn unique_total(files: Seq<(Ownership, ExtentBytes)>) -> int
    decreases files.len(),
{
    if files.len() == 0 {
        0
    } else {
        unique_total(files.drop_last()) + if files.last().0 is Unique {
            files.last().1.allocated as int
        } else {
            0
        }
    }
}

/// Shared extents are never counted as reclaimable: what deleting a set of files would free
/// is exactly the allocation of those that own their data, which never exceeds the apparent
/// total that counts every holder of shared data.
pub proof fn lemma_reclaimable_within_apparent(files: Seq<(Ownership, ExtentBytes)>)
    ensures
        reclaimable_total(files) == unique_total(files),
        0 <= reclaimable_total(files) <= apparent_total(files),
    decreases files.len(),
{
    if files.len() > 0 {
        lemma_reclaimable_within_apparent(files.drop_last());
    }
}

} // verus!
