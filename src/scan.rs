//! The volume descriptor sequence scan, as a state machine. The caller
//! performs each read the scanner asks for and hands back what it produced;
//! the scanner validates, classifies and decides when the sequence ends.
use crate::block::{Block, MAX_LBA};
use crate::descriptor::{descriptor_of, has_signature, parse_descriptor, type_code, DescriptorKind};
use crate::error::IsoError;
use vstd::prelude::*;

verus! {

/// Address of the first volume descriptor: blocks 0 to 15 are the system
/// area, which is never read.
pub const FIRST_DESCRIPTOR_LBA: u64 = 16;

/// Where a scan stands.
#[derive(Debug, Clone, Copy, PartialEq, Eq, Structural)]
pub enum ScanStatus {
    /// More descriptors are to be read.
    Scanning,
    /// The terminator was read: the volume is open.
    Done,
    /// The scan was aborted; the volume cannot be opened.
    Failed(IsoError),
}

/// What the scan asks its caller to do next.
#[derive(Debug, Clone, Copy, PartialEq, Eq, Structural)]
pub enum ScanAction {
    /// Read the logical block `lba`, which starts at byte `offset`, and hand
    /// the outcome to `Scanner::step`.
    Read { lba: u64, offset: u64 },
    /// The sequence ended after `descriptors` descriptor blocks.
    Finish { descriptors: u64 },
    /// Opening failed with this error.
    Abort(IsoError),
}

/// The scan state as a plain value.
pub struct ScanView {
    /// The logical block that the scan reads next, or would have read next.
    pub next_lba: u64,
    pub status: ScanStatus,
}

/// The state in which every scan starts.
pub open spec fn initial_scan() -> ScanView {
    ScanView { next_lba: FIRST_DESCRIPTOR_LBA, status: ScanStatus::Scanning }
}

/// The states that a scan can reach.
pub open spec fn scan_valid(s: ScanView) -> bool {
    &&& FIRST_DESCRIPTOR_LBA <= s.next_lba <= MAX_LBA + 1
    &&& s.status == ScanStatus::Scanning ==> s.next_lba <= MAX_LBA
}

/// One read outcome, with the block as its bytes.
pub open spec fn read_view(read: Result<Block, IsoError>) -> Result<Seq<u8>, IsoError> {
    match read {
        Ok(b) => Ok(b@),
        Err(e) => Err(e),
    }
}

/// How the scan moves on the outcome of the read it asked for. A failed read
/// or a block without the ISO9660 signature aborts it; a terminator ends it;
/// any other descriptor, of a known or a reserved type, sends it on to the
/// next block. Once ended or aborted it no longer moves.
pub open spec fn scan_step(s: ScanView, read: Result<Seq<u8>, IsoError>) -> ScanView {
    if s.status != ScanStatus::Scanning {
        s
    } else {
        match read {
            Err(e) => ScanView { next_lba: s.next_lba, status: ScanStatus::Failed(e) },
            Ok(b) => match descriptor_of(b) {
                Err(e) => ScanView { next_lba: s.next_lba, status: ScanStatus::Failed(e) },
                Ok(kind) => {
                    let next = (s.next_lba + 1) as u64;
                    if kind == DescriptorKind::Terminator {
                        ScanView { next_lba: next, status: ScanStatus::Done }
                    } else if next <= MAX_LBA {
                        ScanView { next_lba: next, status: ScanStatus::Scanning }
                    } else {
                        ScanView {
                            next_lba: next,
                            status: ScanStatus::Failed(IsoError::IoFailure { lba: next }),
                        }
                    }
                },
            },
        }
    }
}

/// What the scan asks for in state `s`.
pub open spec fn action_of(s: ScanView) -> ScanAction {
    match s.status {
        ScanStatus::Scanning => ScanAction::Read {
            lba: s.next_lba,
            offset: (s.next_lba * 2048) as u64,
        },
        ScanStatus::Done => ScanAction::Finish {
            descriptors: (s.next_lba - FIRST_DESCRIPTOR_LBA) as u64,
        },
        ScanStatus::Failed(e) => ScanAction::Abort(e),
    }
}

/// The state reached from `s` by reading each block of `blocks` in turn.
pub open spec fn scan_blocks(s: ScanView, blocks: Seq<Seq<u8>>) -> ScanView
    decreases blocks.len(),
{
    if blocks.len() == 0 {
        s
    } else {
        scan_step(scan_blocks(s, blocks.drop_last()), Ok(blocks.last()))
    }
}

/// A volume descriptor sequence scan in progress.
pub struct Scanner {
    next_lba: u64,
    status: ScanStatus,
}

impl View for Scanner {
    type V = ScanView;

    closed spec fn view(&self) -> ScanView {
        ScanView { next_lba: self.next_lba, status: self.status }
    }
}

impl Scanner {
    #[verifier::type_invariant]
    spec fn reachable(self) -> bool {
        scan_valid(self@)
    }

    /// A scan about to read the first volume descriptor.
    pub fn start() -> (r: Scanner)
        ensures
            r@ == initial_scan(),
    {
        Scanner { next_lba: FIRST_DESCRIPTOR_LBA, status: ScanStatus::Scanning }
    }

    /// Where the scan stands.
    pub fn status(&self) -> (r: ScanStatus)
        ensures
            r == self@.status,
    {
        self.status
    }

    /// What the caller is to do next.
    pub fn next_action(&self) -> (r: ScanAction)
        ensures
            r == action_of(self@),
            scan_valid(self@),
    {
        proof {
            use_type_invariant(self);
        }
        match self.status {
            ScanStatus::Scanning => ScanAction::Read {
                lba: self.next_lba,
                offset: self.next_lba * 2048,
            },
            ScanStatus::Done => ScanAction::Finish {
                descriptors: self.next_lba - FIRST_DESCRIPTOR_LBA,
            },
            ScanStatus::Failed(e) => ScanAction::Abort(e),
        }
    }

    /// Takes the outcome of the read that `next_action` asked for.
    pub fn step(&mut self, read: Result<Block, IsoError>)
        ensures
            final(self)@ == scan_step(old(self)@, read_view(read)),
    {
        proof {
            use_type_invariant(&*self);
        }
        if self.status != ScanStatus::Scanning {
            return ;
        }
        match read {
            Err(e) => {
                *self = Scanner { next_lba: self.next_lba, status: ScanStatus::Failed(e) };
            },
            Ok(block) => match parse_descriptor(&block) {
                Err(e) => {
                    *self = Scanner { next_lba: self.next_lba, status: ScanStatus::Failed(e) };
                },
                Ok(kind) => {
                    let next = self.next_lba + 1;
                    let status = if kind == DescriptorKind::Terminator {
                        ScanStatus::Done
                    } else if next <= MAX_LBA {
                        ScanStatus::Scanning
                    } else {
                        ScanStatus::Failed(IsoError::IoFailure { lba: next })
                    };
                    *self = Scanner { next_lba: next, status };
                },
            },
        }
    }
}

/// A block at the start of the sequence that lacks identifier `CD001` or
/// version 1 aborts the scan with `InvalidSignature`, and no further read is
/// asked for or taken into account.
pub proof fn lemma_signature_gate(first: Seq<u8>)
    requires
        !has_signature(first),
    ensures
        scan_step(initial_scan(), Ok(first)).status == ScanStatus::Failed(IsoError::InvalidSignature),
        action_of(scan_step(initial_scan(), Ok(first))) == ScanAction::Abort(
            IsoError::InvalidSignature,
        ),
        forall|read: Result<Seq<u8>, IsoError>|
            #[trigger] scan_step(scan_step(initial_scan(), Ok(first)), read) == scan_step(
                initial_scan(),
                Ok(first),
            ),
{
}

/// A descriptor of a reserved type code does not abort the scan: it moves on
/// to the next block.
pub proof fn lemma_unknown_type_continues(s: ScanView, b: Seq<u8>)
    requires
        scan_valid(s),
        s.status == ScanStatus::Scanning,
        s.next_lba < MAX_LBA,
        has_signature(b),
        4 <= type_code(b) <= 254,
    ensures
        scan_step(s, Ok(b)) == (ScanView {
            next_lba: (s.next_lba + 1) as u64,
            status: ScanStatus::Scanning,
        }),
        action_of(scan_step(s, Ok(b))) == (ScanAction::Read {
            lba: (s.next_lba + 1) as u64,
            offset: ((s.next_lba + 1) * 2048) as u64,
        }),
{
}

/// All blocks of `blocks` carry the signature, and only the last one is a
/// terminator.
pub open spec fn terminated_sequence(blocks: Seq<Seq<u8>>) -> bool {
    &&& blocks.len() >= 1
    &&& forall|i: int| 0 <= i < blocks.len() ==> #[trigger] has_signature(blocks[i])
    &&& forall|i: int| 0 <= i < blocks.len() - 1 ==> #[trigger] type_code(blocks[i]) != 255
    &&& type_code(blocks.last()) == 255
}

proof fn lemma_scan_prefix(blocks: Seq<Seq<u8>>, k: int)
    requires
        terminated_sequence(blocks),
        blocks.len() + FIRST_DESCRIPTOR_LBA <= MAX_LBA + 1,
        0 <= k < blocks.len(),
    ensures
        scan_blocks(initial_scan(), blocks.take(k)) == (ScanView {
            next_lba: (FIRST_DESCRIPTOR_LBA + k) as u64,
            status: ScanStatus::Scanning,
        }),
    decreases k,
{
    if k > 0 {
        lemma_scan_prefix(blocks, k - 1);
        assert(blocks.take(k).drop_last() =~= blocks.take(k - 1));
        assert(has_signature(blocks[k - 1]));
        assert(type_code(blocks[k - 1]) != 255);
    }
}

/// A sequence of descriptors of any types but the terminator, closed by a
/// terminator, is read to its end and no further: before each of its blocks
/// the scan asks for that block, and after the terminator it has finished,
/// having consumed exactly the blocks of the sequence.
pub proof fn lemma_terminator_halts_scan(blocks: Seq<Seq<u8>>)
    requires
        terminated_sequence(blocks),
        blocks.len() + FIRST_DESCRIPTOR_LBA <= MAX_LBA + 1,
    ensures
        forall|k: int|
            0 <= k < blocks.len() ==> #[trigger] action_of(scan_blocks(initial_scan(), blocks.take(k)))
                == (ScanAction::Read {
                lba: (FIRST_DESCRIPTOR_LBA + k) as u64,
                offset: ((FIRST_DESCRIPTOR_LBA + k) * 2048) as u64,
            }),
        scan_blocks(initial_scan(), blocks).status == ScanStatus::Done,
        action_of(scan_blocks(initial_scan(), blocks)) == (ScanAction::Finish {
            descriptors: blocks.len() as u64,
        }),
{
    assert forall|k: int| 0 <= k < blocks.len() implies #[trigger] action_of(
        scan_blocks(initial_scan(), blocks.take(k)),
    ) == (ScanAction::Read {
        lba: (FIRST_DESCRIPTOR_LBA + k) as u64,
        offset: ((FIRST_DESCRIPTOR_LBA + k) * 2048) as u64,
    }) by {
        lemma_scan_prefix(blocks, k);
    }
    let n = blocks.len() - 1;
    lemma_scan_prefix(blocks, n);
    assert(blocks.drop_last() =~= blocks.take(n));
    assert(has_signature(blocks[n]));
}

} // verus!
