//! Volume-level facts.
//!
//! Capacity and free space are what the accounting is reconciled against, and the cluster
//! size determines how much space a file wastes rounding up to a whole allocation unit. The
//! queries themselves are operating-system calls made by the caller; this module turns what
//! they report into a [`VolumeInfo`], including the volume's stable identity.

use vstd::prelude::*;

use crate::identity::VolumeId;
use crate::text::{before_nul, decode_utf16_lossy, from_wide};

verus! {

/// What Windows reports about a mounted volume.
#[derive(Debug, Clone)]
pub struct VolumeInfo {
    /// The path this was queried with, e.g. `C:\`.
    pub root: String,
    /// Filesystem name as reported, e.g. `NTFS`.
    pub filesystem: String,
    /// Volume serial number.
    pub serial: u32,
    /// Capacity in bytes.
    pub total_bytes: u64,
    /// Free bytes on the volume.
    pub free_bytes: u64,
    /// Free bytes available to the calling user, which differs from `free_bytes` when quotas
    /// are in force. Reported separately rather than conflated.
    pub available_bytes: u64,
    /// Bytes per allocation unit, as the volume reports it.
    pub cluster_bytes: u32,
    /// Stable identifier derived from observed properties rather than from a drive letter.
    pub volume_id: VolumeId,
}

/// The four little-endian bytes of a `u32`.
pub open spec fn le_bytes_u32(x: u32) -> Seq<u8> {
    seq![x as u8, (x >> 8u32) as u8, (x >> 16u32) as u8, (x >> 24u32) as u8]
}

/// The eight little-endian bytes of a `u64`.
pub open spec fn le_bytes_u64(x: u64) -> Seq<u8> {
    seq![
        x as u8,
        (x >> 8u64) as u8,
        (x >> 16u64) as u8,
        (x >> 24u64) as u8,
        (x >> 32u64) as u8,
        (x >> 40u64) as u8,
        (x >> 48u64) as u8,
        (x >> 56u64) as u8,
    ]
}

/// The identity bytes of a volume: serial, cluster size and capacity, each little-endian.
pub open spec fn volume_id_bytes(serial: u32, cluster_bytes: u32, total_bytes: u64) -> Seq<u8> {
    le_bytes_u32(serial) + le_bytes_u32(cluster_bytes) + le_bytes_u64(total_bytes)
}

/// Build a stable 16-byte identifier from properties that survive a remount.
///
/// Deliberately not derived from the drive letter, which is reassigned, and deliberately
/// not a hash: it only needs to be stable and to tell apart the handful of volumes on one
/// machine.
pub fn derive_volume_id(serial: u32, cluster_bytes: u32, total_bytes: u64) -> (id: VolumeId)
    ensures
        id@ == volume_id_bytes(serial, cluster_bytes, total_bytes),
{
    let bytes: [u8; 16] = [
        serial as u8,
        (serial >> 8u32) as u8,
        (serial >> 16u32) as u8,
        (serial >> 24u32) as u8,
        cluster_bytes as u8,
        (cluster_bytes >> 8u32) as u8,
        (cluster_bytes >> 16u32) as u8,
        (cluster_bytes >> 24u32) as u8,
        total_bytes as u8,
        (total_bytes >> 8u64) as u8,
        (total_bytes >> 16u64) as u8,
        (total_bytes >> 24u64) as u8,
        (total_bytes >> 32u64) as u8,
        (total_bytes >> 40u64) as u8,
        (total_bytes >> 48u64) as u8,
        (total_bytes >> 56u64) as u8,
    ];
    let id = VolumeId::from_bytes(bytes);
    assert(id@ =~= volume_id_bytes(serial, cluster_bytes, total_bytes));
    id
}

proof fn lemma_le_bytes_u32_injective(x: u32, y: u32)
    ensures
        le_bytes_u32(x) == le_bytes_u32(y) <==> x == y,
{
    if le_bytes_u32(x) == le_bytes_u32(y) {
        assert(le_bytes_u32(x)[0] == le_bytes_u32(y)[0]);
        assert(le_bytes_u32(x)[1] == le_bytes_u32(y)[1]);
        assert(le_bytes_u32(x)[2] == le_bytes_u32(y)[2]);
        assert(le_bytes_u32(x)[3] == le_bytes_u32(y)[3]);
        assert(x == y) by (bit_vector)
            requires
                x as u8 == y as u8,
                (x >> 8u32) as u8 == (y >> 8u32) as u8,
                (x >> 16u32) as u8 == (y >> 16u32) as u8,
                (x >> 24u32) as u8 == (y >> 24u32) as u8,
        ;
    }
}

proof fn lemma_le_bytes_u64_injective(x: u64, y: u64)
    ensures
        le_bytes_u64(x) == le_bytes_u64(y) <==> x == y,
{
    if le_bytes_u64(x) == le_bytes_u64(y) {
        assert(le_bytes_u64(x)[0] == le_bytes_u64(y)[0]);
        assert(le_bytes_u64(x)[1] == le_bytes_u64(y)[1]);
        assert(le_bytes_u64(x)[2] == le_bytes_u64(y)[2]);
        assert(le_bytes_u64(x)[3] == le_bytes_u64(y)[3]);
        assert(le_bytes_u64(x)[4] == le_bytes_u64(y)[4]);
        assert(le_bytes_u64(x)[5] == le_bytes_u64(y)[5]);
        assert(le_bytes_u64(x)[6] == le_bytes_u64(y)[6]);
        assert(le_bytes_u64(x)[7] == le_bytes_u64(y)[7]);
        assert(x == y) by (bit_vector)
            requires
                x as u8 == y as u8,
                (x >> 8u64) as u8 == (y >> 8u64) as u8,
                (x >> 16u64) as u8 == (y >> 16u64) as u8,
                (x >> 24u64) as u8 == (y >> 24u64) as u8,
                (x >> 32u64) as u8 == (y >> 32u64) as u8,
                (x >> 40u64) as u8 == (y >> 40u64) as u8,
                (x >> 48u64) as u8 == (y >> 48u64) as u8,
                (x >> 56u64) as u8 == (y >> 56u64) as u8,
        ;
    }
}

/// A volume's identity is determined by its properties and determines them: the same serial,
/// cluster size and capacity always give the same identifier, and volumes differing in any
/// of the three get different identifiers.
pub proof fn lemma_volume_id_injective(
    serial_a: u32,
    cluster_a: u32,
    total_a: u64,
    serial_b: u32,
    cluster_b: u32,
    total_b: u64,
)
    ensures
        volume_id_bytes(serial_a, cluster_a, total_a) == volume_id_bytes(serial_b, cluster_b, total_b)
            <==> (serial_a == serial_b && cluster_a == cluster_b && total_a == total_b),
{
    let a = volume_id_bytes(serial_a, cluster_a, total_a);
    let b = volume_id_bytes(serial_b, cluster_b, total_b);
    if a == b {
        assert(a.subrange(0, 4) =~= le_bytes_u32(serial_a));
        assert(b.subrange(0, 4) =~= le_bytes_u32(serial_b));
        assert(a.subrange(4, 8) =~= le_bytes_u32(cluster_a));
        assert(b.subrange(4, 8) =~= le_bytes_u32(cluster_b));
        assert(a.subrange(8, 16) =~= le_bytes_u64(total_a));
        assert(b.subrange(8, 16) =~= le_bytes_u64(total_b));
        lemma_le_bytes_u32_injective(serial_a, serial_b);
        lemma_le_bytes_u32_injective(cluster_a, cluster_b);
        lemma_le_bytes_u64_injective(total_a, total_b);
    }
}

/// Bytes per cluster: sectors per cluster times bytes per sector, saturating at the largest
/// `u32`.
pub fn cluster_size(sectors_per_cluster: u32, bytes_per_sector: u32) -> (c: u32)
    ensures
        c == if sectors_per_cluster * bytes_per_sector <= u32::MAX {
            sectors_per_cluster * bytes_per_sector
        } else {
            u32::MAX as int
        },
{
    match sectors_per_cluster.checked_mul(bytes_per_sector) {
        Some(c) => c,
        None => u32::MAX,
    }
}

impl VolumeInfo {
    /// Assemble what the volume queries reported: the root path as given, the filesystem
    /// name decoded from its NUL-terminated buffer, capacity and free space as reported, the
    /// cluster size from its two factors, and the identity derived from serial, cluster size
    /// and capacity.
    pub fn from_reported(
        root: &str,
        filesystem_name: &[u16],
        serial: u32,
        total_bytes: u64,
        free_bytes: u64,
        available_bytes: u64,
        sectors_per_cluster: u32,
        bytes_per_sector: u32,
    ) -> (v: VolumeInfo)
        ensures
            v.root@ == root@,
            v.filesystem@ == decode_utf16_lossy(before_nul(filesystem_name@)),
            v.serial == serial,
            v.total_bytes == total_bytes,
            v.free_bytes == free_bytes,
            v.available_bytes == available_bytes,
            v.cluster_bytes as int == if sectors_per_cluster * bytes_per_sector <= u32::MAX {
                sectors_per_cluster * bytes_per_sector
            } else {
                u32::MAX as int
            },
            v.volume_id@ == volume_id_bytes(serial, v.cluster_bytes, total_bytes),
    {
        let cluster_bytes = cluster_size(sectors_per_cluster, bytes_per_sector);
        VolumeInfo {
            root: root.to_owned(),
            volume_id: derive_volume_id(serial, cluster_bytes, total_bytes),
            filesystem: from_wide(filesystem_name),
            serial,
            total_bytes,
            free_bytes,
            available_bytes,
            cluster_bytes,
        }
    }

    /// Bytes in use: capacity minus free space, never below zero.
    pub fn used_bytes(&self) -> (u: u64)
        ensures
            u == if self.total_bytes >= self.free_bytes {
                self.total_bytes - self.free_bytes
            } else {
                0
            },
    {
        self.total_bytes.saturating_sub(self.free_bytes)
    }

    /// Whether free and available space differ, which usually means quotas are in force.
    pub fn quotas_in_force(&self) -> (b: bool)
        ensures
            b == (self.available_bytes != self.free_bytes),
    {
        self.available_bytes != self.free_bytes
    }
}

} // verus!
