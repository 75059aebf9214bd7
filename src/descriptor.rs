//! The common header of a volume descriptor: type code, identifier, version.
use crate::block::Block;
use crate::error::IsoError;
use vstd::prelude::*;

verus! {

/// What a volume descriptor's type code says it is.
#[derive(Debug, Clone, Copy, PartialEq, Eq, Structural)]
pub enum DescriptorKind {
    BootRecord,
    Primary,
    Supplementary,
    VolumePartition,
    /// Closes the volume descriptor sequence.
    Terminator,
    /// A reserved code: tolerated and passed over.
    Unknown(u8),
}

/// The kind that a type code names.
pub open spec fn kind_of(code: u8) -> DescriptorKind {
    if code == 0 {
        DescriptorKind::BootRecord
    } else if code == 1 {
        DescriptorKind::Primary
    } else if code == 2 {
        DescriptorKind::Supplementary
    } else if code == 3 {
        DescriptorKind::VolumePartition
    } else if code == 255 {
        DescriptorKind::Terminator
    } else {
        DescriptorKind::Unknown(code)
    }
}

/// The header's type code, in byte 0.
pub open spec fn type_code(s: Seq<u8>) -> u8 {
    s[0]
}

/// Bytes 1 to 5 hold the standard identifier `CD001` and byte 6 holds
/// version 1.
pub open spec fn has_signature(s: Seq<u8>) -> bool {
    &&& s.len() >= 7
    &&& s[1] == 0x43
    &&& s[2] == 0x44
    &&& s[3] == 0x30
    &&& s[4] == 0x30
    &&& s[5] == 0x31
    &&& s[6] == 1
}

/// What reading a block as a volume descriptor yields.
pub open spec fn descriptor_of(s: Seq<u8>) -> Result<DescriptorKind, IsoError> {
    if has_signature(s) {
        Ok(kind_of(type_code(s)))
    } else {
        Err(IsoError::InvalidSignature)
    }
}

impl DescriptorKind {
    /// The kind that `code` names; reserved codes are `Unknown`.
    pub fn from_type_code(code: u8) -> (r: DescriptorKind)
        ensures
            r == kind_of(code),
    {
        match code {
            0 => DescriptorKind::BootRecord,
            1 => DescriptorKind::Primary,
            2 => DescriptorKind::Supplementary,
            3 => DescriptorKind::VolumePartition,
            255 => DescriptorKind::Terminator,
            _ => DescriptorKind::Unknown(code),
        }
    }
}

/// Reads `block` as a volume descriptor: checks the identifier and the
/// version, then classifies the type code.
pub fn parse_descriptor(block: &Block) -> (r: Result<DescriptorKind, IsoError>)
    ensures
        r == descriptor_of(block@),
{
    let b = block.bytes();
    if b[1] == 0x43 && b[2] == 0x44 && b[3] == 0x30 && b[4] == 0x30 && b[5] == 0x31 && b[6] == 1 {
        Ok(DescriptorKind::from_type_code(b[0]))
    } else {
        Err(IsoError::InvalidSignature)
    }
}

} // verus!
