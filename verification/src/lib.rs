//! HousemanFS: read-only filesystem accounting.
//!
//! The library holds the accounting model and every decision the scanner makes: file
//! identity, extent ownership, volume reconciliation with an explicit residual, the
//! hardlink-aware directory walk, NTFS metadata figures, and the string and byte handling
//! around the Windows volume APIs. The operating-system calls themselves are made by the
//! application, which hands the library plain values and renders what it gets back.
//!
//! The accounting encodes the project's central claim: a file does not necessarily own its
//! bytes, and a reclaim estimate that assumes otherwise is wrong in the optimistic direction.

pub mod accounting;
pub mod bytes;
pub mod identity;
pub mod ntfs;
pub mod scan;
pub mod text;
pub mod volume;
pub mod walk;
