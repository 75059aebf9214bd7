//! Reading ISO9660 volumes: the dual-endian field codec, fixed-size logical
//! blocks, volume descriptor headers and the volume descriptor sequence scan.
pub mod block;
pub mod both_endian;
pub mod descriptor;
pub mod error;
pub mod scan;

pub use block::{block_offset, Block, BLOCK_SIZE, MAX_LBA};
pub use both_endian::{decode_both_u16, decode_both_u32};
pub use descriptor::{parse_descriptor, DescriptorKind};
pub use error::IsoError;
pub use scan::{ScanAction, ScanStatus, Scanner, FIRST_DESCRIPTOR_LBA};

use vstd::prelude::*;

verus! {

} // verus!
