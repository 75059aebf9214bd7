use vstd::prelude::*;

verus! {

/// What can go wrong while reading an ISO9660 volume.
#[derive(Debug, Clone, Copy, PartialEq, Eq, Structural)]
pub enum IsoError {
    /// A read or seek of the logical block at `lba` failed, came back short,
    /// or addressed an offset the storage cannot have.
    IoFailure { lba: u64 },
    /// A block expected to be a volume descriptor lacks identifier `CD001`
    /// or version 1: the storage is not an ISO9660 volume.
    InvalidSignature,
    /// The two byte orders of a dual-endian field disagree.
    FormatMismatch,
}

} // verus!
