//! Volume-level accounting.
//!
//! The output of a scan is an explanation of where the bytes went, together with an honest
//! account of the bytes that could not be explained. The residual is a first-class output.

use vstd::prelude::*;

verus! {

/// Paths the scanner could not read.
///
/// This bounds how much the accounting can be trusted: every unreadable path hides some
/// unknown number of bytes from `file_bytes`.
#[derive(Debug, Clone, Copy, PartialEq, Eq)]
pub struct Denied {
    pub paths: u64,
}

impl Denied {
    pub fn new(paths: u64) -> (d: Denied)
        ensures
            d.paths == paths,
    {
        Denied { paths }
    }

    /// Whether any path was unreadable.
    pub fn any(&self) -> (b: bool)
        ensures
            b == (self.paths > 0),
    {
        self.paths > 0
    }
}

/// `a - b`, or zero when `b` exceeds `a`.
pub open spec fn sat_sub(a: int, b: int) -> int {
    if a >= b {
        a - b
    } else {
        0
    }
}

/// `v`, capped at the largest `u64`.
pub open spec fn cap_u64(v: int) -> int {
    if v <= u64::MAX {
        v
    } else {
        u64::MAX as int
    }
}

/// The byte-level explanation of one volume.
#[derive(Debug, Clone, Copy, PartialEq, Eq)]
pub struct Accounting {
    /// Capacity reported by the filesystem.
    pub total: u64,
    /// Free space reported by the filesystem.
    pub free: u64,
    /// Physical bytes occupied by file data, each shared extent counted once.
    pub file_bytes: u64,
    /// Bytes occupied by alternate data streams.
    pub stream_bytes: u64,
    /// Bytes occupied by directory metadata.
    pub directory_bytes: u64,
    /// Filesystem metadata whose size is known. `None` means not measurable, which is
    /// different from zero.
    pub known_metadata: Option<u64>,
    pub denied: Denied,
}

impl Accounting {
    /// Metadata bytes as they enter the sum: an unmeasurable figure contributes nothing.
    pub open spec fn metadata_term(self) -> int {
        match self.known_metadata {
            Some(bytes) => bytes as int,
            None => 0,
        }
    }

    /// Capacity minus free space, never below zero.
    pub open spec fn spec_used(self) -> int {
        sat_sub(self.total as int, self.free as int)
    }

    /// The sum of every attributed part, capped at the largest `u64`.
    pub open spec fn spec_attributed(self) -> int {
        cap_u64(
            self.file_bytes as int + self.stream_bytes as int + self.directory_bytes as int
                + self.metadata_term(),
        )
    }

    /// Bytes in use that the attributed parts do not cover, never below zero.
    pub open spec fn spec_residual(self) -> int {
        sat_sub(self.spec_used(), self.spec_attributed())
    }

    /// Bytes in use: capacity minus free space.
    pub fn used(&self) -> (u: u64)
        ensures
            u == self.spec_used(),
            self.free <= self.total ==> u + self.free == self.total,
            self.free > self.total ==> u == 0,
    {
        self.total.saturating_sub(self.free)
    }

    /// Bytes we can point at and explain.
    pub fn attributed(&self) -> (a: u64)
        ensures
            a == self.spec_attributed(),
            ({
                let sum = self.file_bytes + self.stream_bytes + self.directory_bytes + match self.known_metadata {
                    Some(m) => m as int,
                    None => 0int,
                };
                &&& sum <= u64::MAX ==> a == sum
                &&& sum > u64::MAX ==> a == u64::MAX
            }),
    {
        let metadata: u64 = match self.known_metadata {
            Some(bytes) => bytes,
            None => 0,
        };
        self.file_bytes.saturating_add(self.stream_bytes).saturating_add(
            self.directory_bytes,
        ).saturating_add(metadata)
    }

    /// Bytes in use that we cannot account for.
    pub fn residual(&self) -> (r: u64)
        ensures
            r == self.spec_residual(),
            self.spec_attributed() <= self.spec_used() ==> r + self.spec_attributed() == self.spec_used(),
            self.spec_attributed() > self.spec_used() ==> r == 0,
    {
        self.used().saturating_sub(self.attributed())
    }
}

/// Whether the accounting explains the volume well enough to be trusted, as decided from
/// whether the residual is within the tolerance.
#[derive(Debug, Clone, Copy, PartialEq, Eq)]
pub enum Finding {
    /// The unexplained remainder is within tolerance.
    Explained { residual: u64 },
    /// Too much is unexplained. The scan must not present its figures as complete.
    Unexplained {
        residual: u64,
        /// How many paths could not be read: the first thing worth investigating.
        unreadable_paths: u64,
    },
}

impl Accounting {
    /// The finding for this accounting, given whether its residual ratio is within the
    /// tolerance: explained when it is, and otherwise unexplained, naming the unreadable
    /// paths as the first place to look. Either way the residual is reported.
    ///
    /// `Unexplained` is a finding to surface to the user, not an internal error to swallow.
    pub fn finding(&self, within_tolerance: bool) -> (f: Finding)
        ensures
            within_tolerance ==> f == (Finding::Explained { residual: self.spec_residual() as u64 }),
            !within_tolerance ==> f == (Finding::Unexplained {
                residual: self.spec_residual() as u64,
                unreadable_paths: self.denied.paths,
            }),
    {
        let residual = self.residual();
        if within_tolerance {
            Finding::Explained { residual }
        } else {
            Finding::Unexplained { residual, unreadable_paths: self.denied.paths }
        }
    }
}

/// The residual closes the gap and never goes negative: every byte in use is either
/// attributed or in the residual, the residual never exceeds what is in use, and when more
/// is attributed than is used the residual is zero rather than wrapping around.
pub proof fn lemma_residual_closes_the_gap(a: Accounting)
    ensures
        0 <= a.spec_residual() <= a.spec_used() <= a.total,
        a.spec_attributed() + a.spec_residual() >= a.spec_used(),
        a.spec_attributed() >= a.spec_used() ==> a.spec_residual() == 0,
        a.spec_attributed() < a.spec_used() ==> a.spec_attributed() + a.spec_residual()
            == a.spec_used(),
{
}

/// Metadata that cannot be measured is not zero metadata: with it unknown, exactly the
/// metadata's bytes move from the attributed figure to the residual, as long as nothing
/// saturates.
pub proof fn lemma_unmeasured_metadata_moves_to_residual(a: Accounting, m: u64)
    requires
        a.known_metadata == Some(m),
        a.file_bytes + a.stream_bytes + a.directory_bytes + m <= a.spec_used(),
    ensures
        ({
            let unknown = Accounting { known_metadata: None, ..a };
            &&& unknown.spec_attributed() == a.spec_attributed() - m
            &&& unknown.spec_residual() == a.spec_residual() + m
        }),
{
}

} // verus!
