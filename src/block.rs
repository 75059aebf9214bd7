//! Logical blocks: the 2048-byte unit of all ISO9660 addressing.
use crate::error::IsoError;
use vstd::prelude::*;

verus! {

/// Size in bytes of one logical block.
pub const BLOCK_SIZE: usize = 2048;

/// The largest logical block address whose byte offset fits in a `u64`.
pub const MAX_LBA: u64 = 0x001f_ffff_ffff_ffff;

/// Byte offset of the logical block `lba`, where it fits in a `u64`.
pub open spec fn offset_of(lba: u64) -> Option<u64> {
    if lba * 2048 <= u64::MAX {
        Some((lba * 2048) as u64)
    } else {
        None
    }
}

/// Byte offset at which the logical block `lba` starts; `None` when no
/// storage addressed by `u64` offsets can hold it.
pub fn block_offset(lba: u64) -> (r: Option<u64>)
    ensures
        r == offset_of(lba),
        r is Some <==> lba <= MAX_LBA,
{
    if lba <= MAX_LBA {
        Some(lba * 2048)
    } else {
        None
    }
}

/// One logical block, owned: always exactly `BLOCK_SIZE` bytes.
pub struct Block {
    bytes: Vec<u8>,
}

impl View for Block {
    type V = Seq<u8>;

    closed spec fn view(&self) -> Seq<u8> {
        self.bytes@
    }
}

impl Block {
    #[verifier::type_invariant]
    spec fn full(self) -> bool {
        self.bytes@.len() == BLOCK_SIZE
    }

    /// Takes what a read of the block `lba` produced. A read that yielded
    /// anything but exactly `BLOCK_SIZE` bytes is an `IoFailure` at `lba`:
    /// no partial block is ever accepted.
    pub fn from_read(lba: u64, bytes: Vec<u8>) -> (r: Result<Block, IsoError>)
        ensures
            r is Ok <==> bytes@.len() == BLOCK_SIZE,
            r matches Ok(b) ==> b@ == bytes@,
            r matches Err(e) ==> e == (IsoError::IoFailure { lba }),
    {
        if bytes.len() == BLOCK_SIZE {
            Ok(Block { bytes })
        } else {
            Err(IsoError::IoFailure { lba })
        }
    }

    /// The block's bytes.
    pub fn bytes(&self) -> (r: &[u8])
        ensures
            r@ == self@,
            r@.len() == BLOCK_SIZE,
    {
        proof {
            use_type_invariant(self);
        }
        self.bytes.as_slice()
    }

    /// Gives up the block, keeping its bytes.
    pub fn into_bytes(self) -> (r: Vec<u8>)
        ensures
            r@ == self@,
            r@.len() == BLOCK_SIZE,
    {
        proof {
            use_type_invariant(&self);
        }
        self.bytes
    }
}

} // verus!
