use iso9660::{
    block_offset, decode_both_u16, decode_both_u32, parse_descriptor, Block, DescriptorKind,
    IsoError, ScanAction, ScanStatus, Scanner, BLOCK_SIZE, FIRST_DESCRIPTOR_LBA, MAX_LBA,
};

fn descriptor_block(type_code: u8, version: u8) -> Vec<u8> {
    let mut b = vec![0u8; BLOCK_SIZE];
    b[0] = type_code;
    b[1..6].copy_from_slice(b"CD001");
    b[6] = version;
    // a recognisable payload
    for (i, byte) in b.iter_mut().enumerate().skip(7) {
        *byte = (i % 251) as u8;
    }
    b
}

fn image(descriptors: &[Vec<u8>]) -> Vec<u8> {
    let mut img = vec![0u8; 16 * BLOCK_SIZE];
    for d in descriptors {
        img.extend_from_slice(d);
    }
    img
}

/// Reads block `lba` of an in-memory image the way a file would: whatever is
/// there, possibly short.
fn read_block(img: &[u8], lba: u64) -> Result<Block, IsoError> {
    let offset = match block_offset(lba) {
        Some(o) => o as usize,
        None => return Err(IsoError::IoFailure { lba }),
    };
    let start = offset.min(img.len());
    let end = (offset + BLOCK_SIZE).min(img.len());
    Block::from_read(lba, img[start..end].to_vec())
}

/// Runs a whole scan over an in-memory image; returns the outcome and the
/// addresses that were read.
fn open(img: &[u8]) -> (Result<u64, IsoError>, Vec<u64>) {
    let mut scanner = Scanner::start();
    let mut reads = Vec::new();
    loop {
        match scanner.next_action() {
            ScanAction::Read { lba, offset } => {
                assert_eq!(offset, lba * 2048);
                reads.push(lba);
                scanner.step(read_block(img, lba));
            }
            ScanAction::Finish { descriptors } => return (Ok(descriptors), reads),
            ScanAction::Abort(e) => return (Err(e), reads),
        }
    }
}

#[test]
fn primary_then_terminator_opens() {
    let img = image(&[descriptor_block(1, 1), descriptor_block(255, 1)]);
    let (result, reads) = open(&img);
    assert_eq!(result, Ok(2));
    assert_eq!(reads, vec![16, 17]);
}

#[test]
fn version_two_is_invalid_signature() {
    let img = image(&[descriptor_block(1, 2), descriptor_block(255, 1)]);
    let (result, reads) = open(&img);
    assert_eq!(result, Err(IsoError::InvalidSignature));
    assert_eq!(reads, vec![16]);
}

#[test]
fn read_block_returns_primary_descriptor_bytes() {
    let pvd = descriptor_block(1, 1);
    let img = image(&[pvd.clone(), descriptor_block(255, 1)]);
    assert_eq!(open(&img).0, Ok(2));
    let block = read_block(&img, 16).unwrap();
    assert_eq!(block.bytes(), &pvd[..]);
    assert_eq!(block.into_bytes(), pvd);
}

#[test]
fn bad_identifier_stops_after_one_read() {
    let mut first = descriptor_block(1, 1);
    first[3] = b'X';
    let img = image(&[first, descriptor_block(255, 1)]);
    let (result, reads) = open(&img);
    assert_eq!(result, Err(IsoError::InvalidSignature));
    assert_eq!(reads, vec![16]);
}

#[test]
fn failed_scanner_ignores_further_reads() {
    let mut scanner = Scanner::start();
    scanner.step(Block::from_read(16, vec![0u8; BLOCK_SIZE]));
    assert_eq!(scanner.status(), ScanStatus::Failed(IsoError::InvalidSignature));
    scanner.step(Block::from_read(17, descriptor_block(255, 1)));
    assert_eq!(scanner.next_action(), ScanAction::Abort(IsoError::InvalidSignature));
}

#[test]
fn terminator_alone_reads_one_block() {
    let img = image(&[descriptor_block(255, 1)]);
    let (result, reads) = open(&img);
    assert_eq!(result, Ok(1));
    assert_eq!(reads, vec![16]);
}

#[test]
fn every_kind_then_terminator_reads_all() {
    let codes = [0u8, 1, 2, 3, 4, 200, 254, 1, 2];
    let mut blocks: Vec<Vec<u8>> = codes.iter().map(|&c| descriptor_block(c, 1)).collect();
    blocks.push(descriptor_block(255, 1));
    // blocks after the terminator are never read
    blocks.push(vec![0u8; BLOCK_SIZE]);
    let img = image(&blocks);
    let (result, reads) = open(&img);
    assert_eq!(result, Ok(codes.len() as u64 + 1));
    let expected: Vec<u64> = (16..16 + codes.len() as u64 + 1).collect();
    assert_eq!(reads, expected);
}

#[test]
fn unknown_type_continues_scan() {
    let mut scanner = Scanner::start();
    scanner.step(Block::from_read(16, descriptor_block(200, 1)));
    assert_eq!(scanner.status(), ScanStatus::Scanning);
    assert_eq!(scanner.next_action(), ScanAction::Read { lba: 17, offset: 17 * 2048 });
}

#[test]
fn missing_terminator_fails_with_io() {
    let img = image(&[descriptor_block(1, 1), descriptor_block(2, 1)]);
    let (result, reads) = open(&img);
    assert_eq!(result, Err(IsoError::IoFailure { lba: 18 }));
    assert_eq!(reads, vec![16, 17, 18]);
}

#[test]
fn short_read_is_io_failure() {
    let mut img = image(&[descriptor_block(1, 1), descriptor_block(255, 1)]);
    img.truncate(17 * BLOCK_SIZE + 100);
    let (result, _) = open(&img);
    assert_eq!(result, Err(IsoError::IoFailure { lba: 17 }));
}

#[test]
fn block_must_be_exactly_block_size() {
    assert_eq!(Block::from_read(3, vec![0u8; 2047]).err(), Some(IsoError::IoFailure { lba: 3 }));
    assert_eq!(Block::from_read(3, vec![0u8; 2049]).err(), Some(IsoError::IoFailure { lba: 3 }));
    assert_eq!(Block::from_read(3, Vec::new()).err(), Some(IsoError::IoFailure { lba: 3 }));
    let b = Block::from_read(3, vec![7u8; 2048]).unwrap();
    assert_eq!(b.bytes().len(), 2048);
    assert!(b.bytes().iter().all(|&x| x == 7));
}

#[test]
fn block_offsets() {
    assert_eq!(block_offset(0), Some(0));
    assert_eq!(block_offset(16), Some(32768));
    assert_eq!(block_offset(MAX_LBA), Some(MAX_LBA * 2048));
    assert_eq!(MAX_LBA, u64::MAX / 2048);
    assert_eq!(block_offset(MAX_LBA + 1), None);
    assert_eq!(block_offset(u64::MAX), None);
}

#[test]
fn start_reads_first_descriptor() {
    let scanner = Scanner::start();
    assert_eq!(FIRST_DESCRIPTOR_LBA, 16);
    assert_eq!(scanner.status(), ScanStatus::Scanning);
    assert_eq!(scanner.next_action(), ScanAction::Read { lba: 16, offset: 32768 });
}

#[test]
fn read_error_aborts_scan() {
    let mut scanner = Scanner::start();
    scanner.step(Block::from_read(16, descriptor_block(0, 1)));
    scanner.step(Err(IsoError::IoFailure { lba: 17 }));
    assert_eq!(scanner.next_action(), ScanAction::Abort(IsoError::IoFailure { lba: 17 }));
}

#[test]
fn descriptor_kinds() {
    let kind = |c: u8| parse_descriptor(&Block::from_read(16, descriptor_block(c, 1)).unwrap());
    assert_eq!(kind(0), Ok(DescriptorKind::BootRecord));
    assert_eq!(kind(1), Ok(DescriptorKind::Primary));
    assert_eq!(kind(2), Ok(DescriptorKind::Supplementary));
    assert_eq!(kind(3), Ok(DescriptorKind::VolumePartition));
    assert_eq!(kind(255), Ok(DescriptorKind::Terminator));
    assert_eq!(kind(4), Ok(DescriptorKind::Unknown(4)));
    assert_eq!(kind(200), Ok(DescriptorKind::Unknown(200)));
    assert_eq!(DescriptorKind::from_type_code(254), DescriptorKind::Unknown(254));
}

#[test]
fn version_zero_and_bad_identifier_rejected() {
    let b = Block::from_read(16, descriptor_block(1, 0)).unwrap();
    assert_eq!(parse_descriptor(&b), Err(IsoError::InvalidSignature));
    let mut raw = descriptor_block(1, 1);
    raw[5] = b'2';
    let b = Block::from_read(16, raw).unwrap();
    assert_eq!(parse_descriptor(&b), Err(IsoError::InvalidSignature));
}

fn both16(v: u16) -> [u8; 4] {
    let l = v.to_le_bytes();
    let b = v.to_be_bytes();
    [l[0], l[1], b[0], b[1]]
}

fn both32(v: u32) -> [u8; 8] {
    let l = v.to_le_bytes();
    let b = v.to_be_bytes();
    [l[0], l[1], l[2], l[3], b[0], b[1], b[2], b[3]]
}

#[test]
fn both_endian_exact_values() {
    assert_eq!(decode_both_u16(&[0x34, 0x12, 0x12, 0x34]), Ok(0x1234));
    assert_eq!(decode_both_u32(&[0x78, 0x56, 0x34, 0x12, 0x12, 0x34, 0x56, 0x78]), Ok(0x1234_5678));
    assert_eq!(decode_both_u32(&[0, 8, 0, 0, 0, 0, 8, 0]), Ok(2048));
}

#[test]
fn both_endian_round_trip() {
    for v in [0u16, 1, 255, 256, 2048, 0x1234, u16::MAX] {
        assert_eq!(decode_both_u16(&both16(v)), Ok(v));
    }
    for v in [0u32, 1, 255, 256, 65536, 0x1234_5678, 0xdead_beef, u32::MAX] {
        assert_eq!(decode_both_u32(&both32(v)), Ok(v));
    }
}

#[test]
fn both_endian_bit_flip_is_mismatch() {
    for v in [0u16, 0x1234, u16::MAX] {
        for i in 0..4 {
            for bit in 0..8 {
                let mut f = both16(v);
                f[i] ^= 1 << bit;
                assert_eq!(decode_both_u16(&f), Err(IsoError::FormatMismatch));
            }
        }
    }
    for v in [0u32, 0x1234_5678, u32::MAX] {
        for i in 0..8 {
            for bit in 0..8 {
                let mut f = both32(v);
                f[i] ^= 1 << bit;
                assert_eq!(decode_both_u32(&f), Err(IsoError::FormatMismatch));
            }
        }
    }
}

#[test]
fn both_endian_same_order_twice_is_mismatch() {
    assert_eq!(decode_both_u16(&[0x34, 0x12, 0x34, 0x12]), Err(IsoError::FormatMismatch));
    assert_eq!(decode_both_u32(&[1, 0, 0, 0, 1, 0, 0, 0]), Err(IsoError::FormatMismatch));
    // a palindrome agrees in both orders
    assert_eq!(decode_both_u16(&[7, 7, 7, 7]), Ok(0x0707));
}
