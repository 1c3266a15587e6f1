//! File and volume identity.
//!
//! Identity is the file ID, never the path: a rename or a move is among the most common
//! operations on a filesystem, and an index keyed on paths would lose every derived fact
//! about a file the moment it moved. Platform reference numbers such as NTFS MFT record
//! numbers are not used either, because they are recycled after deletion.

use vstd::prelude::*;

use crate::text::{hex_lower, push_hex_byte};

verus! {

/// A volume, identified in a way that survives remounting: derived from observed properties
/// rather than from a drive letter or mount point.
#[derive(Debug, Clone, Copy, PartialEq, Eq, Hash)]
pub struct VolumeId([u8; 16]);

impl View for VolumeId {
    type V = Seq<u8>;

    closed spec fn view(&self) -> Seq<u8> {
        self.0@
    }
}

impl VolumeId {
    pub fn from_bytes(bytes: [u8; 16]) -> (id: VolumeId)
        ensures
            id@ == bytes@,
    {
        VolumeId(bytes)
    }

    pub fn as_bytes(&self) -> (b: &[u8; 16])
        ensures
            b@ == self@,
    {
        &self.0
    }

    /// The identifier as 32 lower-case hexadecimal digits, two per byte in order.
    pub fn to_hex(&self) -> (s: String)
        ensures
            s@ == hex_lower(self@),
    {
        hex_of(&self.0)
    }
}

/// A file within a volume. The bytes are platform-defined and opaque here; they only need to
/// be stable for the lifetime of the file.
#[derive(Debug, Clone, Copy, PartialEq, Eq, Hash)]
pub struct FileId([u8; 16]);

impl View for FileId {
    type V = Seq<u8>;

    closed spec fn view(&self) -> Seq<u8> {
        self.0@
    }
}

impl FileId {
    pub fn from_bytes(bytes: [u8; 16]) -> (id: FileId)
        ensures
            id@ == bytes@,
    {
        FileId(bytes)
    }

    pub fn as_bytes(&self) -> (b: &[u8; 16])
        ensures
            b@ == self@,
    {
        &self.0
    }

    /// The identifier as 32 lower-case hexadecimal digits, two per byte in order.
    pub fn to_hex(&self) -> (s: String)
        ensures
            s@ == hex_lower(self@),
    {
        hex_of(&self.0)
    }
}

/// A fully-qualified reference to one file: the primary key of the index.
#[derive(Debug, Clone, Copy, PartialEq, Eq, Hash)]
pub struct FileKey {
    pub volume: VolumeId,
    pub file: FileId,
}

impl FileKey {
    pub fn new(volume: VolumeId, file: FileId) -> (k: FileKey)
        ensures
            k.volume == volume,
            k.file == file,
    {
        FileKey { volume, file }
    }
}

/// Two volume identifiers are the same exactly when their bytes are.
pub proof fn lemma_volume_id_is_its_bytes(a: VolumeId, b: VolumeId)
    ensures
        a == b <==> a@ == b@,
{
    if a@ == b@ {
        assert(a.0 =~= b.0) by {
            broadcast use vstd::array::group_array_axioms;

            assert forall|i: int| 0 <= i < 16 implies a.0[i] == b.0[i] by {
                assert(a@[i] == b@[i]);
            }
        }
    }
}

/// Two file identifiers are the same exactly when their bytes are.
pub proof fn lemma_file_id_is_its_bytes(a: FileId, b: FileId)
    ensures
        a == b <==> a@ == b@,
{
    if a@ == b@ {
        assert(a.0 =~= b.0) by {
            broadcast use vstd::array::group_array_axioms;

            assert forall|i: int| 0 <= i < 16 implies a.0[i] == b.0[i] by {
                assert(a@[i] == b@[i]);
            }
        }
    }
}

/// Identity is the pair of volume and file: two keys are the same file exactly when both
/// parts agree, so the same file ID on two volumes names two different files.
pub proof fn lemma_key_is_volume_and_file(a: FileKey, b: FileKey)
    ensures
        a == b <==> (a.volume@ == b.volume@ && a.file@ == b.file@),
{
    lemma_volume_id_is_its_bytes(a.volume, b.volume);
    lemma_file_id_is_its_bytes(a.file, b.file);
}

fn hex_of(bytes: &[u8; 16]) -> (s: String)
    ensures
        s@ == hex_lower(bytes@),
{
    let mut s = String::new();
    let mut i: usize = 0;
    while i < 16
        invariant
            i <= 16,
            s@ == hex_lower(bytes@.take(i as int)),
        decreases 16 - i,
    {
        proof {
            assert(bytes@.take(i + 1).drop_last() =~= bytes@.take(i as int));
        }
        push_hex_byte(&mut s, bytes[i]);
        i = i + 1;
    }
    assert(bytes@.take(16) =~= bytes@);
    s
}

} // verus!
