//! End-to-end exercises of the block transfer engine: addressing,
//! checksums, the disk image writer, the file block scanner, the
//! downloader, and the upload/download round trip.

use coldsnap::block::{block_count, block_offset, Block, DEFAULT_BLOCK_SIZE};
use coldsnap::checksum::{block_checksum, bytes_eq, checksum_matches};
use coldsnap::download::{download_into, download_to_file};
use coldsnap::errors::{DownloadError, SizeMismatchError};
use coldsnap::image::DiskImage;
use coldsnap::scanner::{is_all_zero, scan_blocks};
use coldsnap::upload::upload_from_file;
use base64::Engine;
use sha2::Digest;

fn checksum_of(payload: &[u8]) -> Vec<u8> {
    block_checksum(payload)
}

#[test]
fn block_arithmetic_exact_values() {
    assert_eq!(DEFAULT_BLOCK_SIZE, 524288);
    assert_eq!(block_offset(0, 512), 0);
    assert_eq!(block_offset(3, 512), 1536);
    assert_eq!(block_count(0, 512), 0);
    assert_eq!(block_count(1, 512), 1);
    assert_eq!(block_count(512, 512), 1);
    assert_eq!(block_count(513, 512), 2);
    assert_eq!(block_count(1048576, 524288), 2);
}

#[test]
fn checksum_of_empty_input_is_known_constant() {
    // SHA-256 of no bytes, base64-encoded.
    let c = block_checksum(&[]);
    assert_eq!(c, b"47DEQpj8HBSa+/TImW+5JCeuQeRkm5NMpJWZG3hSuFU=".to_vec());
}

#[test]
fn checksum_agrees_with_direct_computation() {
    let payload = b"some block payload bytes".to_vec();
    let expected = base64::engine::general_purpose::STANDARD
        .encode(sha2::Sha256::digest(payload.as_slice()))
        .into_bytes();
    assert_eq!(block_checksum(payload.as_slice()), expected);
    assert!(checksum_matches(payload.as_slice(), expected.as_slice()));
}

#[test]
fn checksum_rejects_corrupted_payload() {
    let payload = b"original".to_vec();
    let attested = block_checksum(payload.as_slice());
    let mut corrupted = payload.clone();
    corrupted[0] ^= 0xff;
    assert!(!checksum_matches(corrupted.as_slice(), attested.as_slice()));
}

#[test]
fn bytes_eq_compares_contents() {
    assert!(bytes_eq(&[1, 2, 3], &[1, 2, 3]));
    assert!(!bytes_eq(&[1, 2, 3], &[1, 2, 4]));
    assert!(!bytes_eq(&[1, 2], &[1, 2, 3]));
    assert!(bytes_eq(&[], &[]));
}

#[test]
fn zero_detection() {
    assert!(is_all_zero(&[]));
    assert!(is_all_zero(&[0, 0, 0]));
    assert!(!is_all_zero(&[0, 0, 1]));
}

#[test]
fn image_starts_as_zeros_sized_to_total() {
    let img = DiskImage::new(10, 4);
    assert_eq!(img.len(), 10);
    assert_eq!(img.bytes(), &vec![0u8; 10]);
}

#[test]
fn write_block_lands_at_index_offset() {
    let mut img = DiskImage::new(10, 4);
    assert!(img.write_block(1, &[7, 8, 9, 10]).is_ok());
    assert_eq!(img.bytes(), &vec![0, 0, 0, 0, 7, 8, 9, 10, 0, 0]);
    // The last window is partial: two bytes.
    assert!(img.write_block(2, &[1, 2]).is_ok());
    assert_eq!(img.bytes(), &vec![0, 0, 0, 0, 7, 8, 9, 10, 1, 2]);
}

#[test]
fn write_block_rejects_wrong_length_untouched() {
    let mut img = DiskImage::new(10, 4);
    assert_eq!(img.write_block(0, &[1, 2, 3]), Err(SizeMismatchError { index: 0 }));
    assert_eq!(img.write_block(2, &[1, 2, 3, 4]), Err(SizeMismatchError { index: 2 }));
    assert_eq!(img.write_block(3, &[1, 2, 3, 4]), Err(SizeMismatchError { index: 3 }));
    assert_eq!(img.bytes(), &vec![0u8; 10]);
}

#[test]
fn write_block_same_payload_twice_is_idempotent() {
    let mut once = DiskImage::new(8, 4);
    assert!(once.write_block(1, &[5, 6, 7, 8]).is_ok());
    let mut twice = DiskImage::new(8, 4);
    assert!(twice.write_block(1, &[5, 6, 7, 8]).is_ok());
    assert!(twice.write_block(1, &[5, 6, 7, 8]).is_ok());
    assert_eq!(once.bytes(), twice.bytes());
}

#[test]
fn scanner_skips_zero_windows_and_keeps_order() {
    // Windows of 4 bytes: non-zero, zero, non-zero, partial non-zero.
    let mut data = vec![0u8; 14];
    data[0] = 1;
    data[9] = 2;
    data[13] = 3;
    let blocks = scan_blocks(data.as_slice(), 4);
    let indices: Vec<usize> = blocks.iter().map(|b| b.index).collect();
    assert_eq!(indices, vec![0, 2, 3]);
    assert_eq!(blocks[0].payload, vec![1, 0, 0, 0]);
    assert_eq!(blocks[1].payload, vec![0, 2, 0, 0]);
    assert_eq!(blocks[2].payload, vec![0, 3]);
    for b in &blocks {
        assert!(!is_all_zero(b.payload.as_slice()));
        assert_eq!(b.checksum, checksum_of(b.payload.as_slice()));
    }
}

#[test]
fn scanner_emits_nothing_for_empty_or_zero_file() {
    assert_eq!(scan_blocks(&[], 4).len(), 0);
    assert_eq!(scan_blocks(&[0u8; 12], 4).len(), 0);
}

#[test]
fn download_writes_every_block_and_leaves_rest_zero() {
    let p0 = vec![1, 2, 3, 4];
    let p2 = vec![9, 9];
    let blocks = vec![
        Block { index: 0, payload: p0.clone(), checksum: checksum_of(p0.as_slice()) },
        Block { index: 2, payload: p2.clone(), checksum: checksum_of(p2.as_slice()) },
    ];
    let img = download_to_file(10, 4, &blocks).expect("download should succeed");
    assert_eq!(img.bytes(), &vec![1, 2, 3, 4, 0, 0, 0, 0, 9, 9]);
}

#[test]
fn download_integrity_failure_aborts_without_corrupting() {
    let p0 = vec![1, 2, 3, 4];
    let p1 = vec![5, 6, 7, 8];
    let wrong = checksum_of(&[9, 9, 9, 9]);
    let blocks = vec![
        Block { index: 0, payload: p0.clone(), checksum: checksum_of(p0.as_slice()) },
        Block { index: 1, payload: p1.clone(), checksum: wrong },
    ];
    let mut img = DiskImage::new(8, 4);
    let r = download_into(&mut img, &blocks);
    assert_eq!(r, Err(DownloadError::Integrity { index: 1 }));
    // The first block stays in place; nothing of the failing block landed.
    assert_eq!(img.bytes(), &vec![1, 2, 3, 4, 0, 0, 0, 0]);
}

#[test]
fn download_size_mismatch_names_the_block() {
    let short = vec![1, 2];
    let blocks = vec![
        Block { index: 0, payload: short.clone(), checksum: checksum_of(short.as_slice()) },
    ];
    let r = download_to_file(8, 4, &blocks);
    assert_eq!(r.err(), Some(DownloadError::SizeMismatch { index: 0 }));
}

#[test]
fn upload_plan_reports_sparse_block_count() {
    // One all-zero 512 KiB window followed by one non-zero 512 KiB window:
    // two blocks spanned, one submitted, at index 1.
    let half = 524288usize;
    let mut data = vec![0u8; 2 * half];
    for i in half..2 * half {
        data[i] = 0xab;
    }
    let plan = upload_from_file(data.as_slice(), half);
    assert_eq!(plan.total_size, 2 * half);
    assert_eq!(plan.block_size, half);
    assert_eq!(plan.block_count, 2);
    assert_eq!(plan.blocks.len(), 1);
    assert_eq!(plan.blocks[0].index, 1);
    assert_eq!(plan.blocks[0].payload, vec![0xab; half]);
}

#[test]
fn upload_then_download_round_trips() {
    // Zero window, two non-zero windows, a zero window, a partial tail.
    let mut data = vec![0u8; 19];
    data[4] = 1;
    data[8] = 2;
    data[11] = 3;
    data[18] = 4;
    let plan = upload_from_file(data.as_slice(), 4);
    let img = download_to_file(plan.total_size, plan.block_size, &plan.blocks)
        .expect("round trip download should succeed");
    assert_eq!(img.bytes(), &data);
}

#[test]
fn download_of_empty_snapshot_yields_empty_image() {
    let img = download_to_file(0, 4, &Vec::new()).expect("empty download should succeed");
    assert_eq!(img.len(), 0);
    assert_eq!(img.bytes(), &Vec::<u8>::new());
}

#[test]
fn round_trip_with_single_byte_blocks() {
    let data = vec![0, 7, 0, 0, 9];
    let plan = upload_from_file(data.as_slice(), 1);
    assert_eq!(plan.block_count, 5);
    let indices: Vec<usize> = plan.blocks.iter().map(|b| b.index).collect();
    assert_eq!(indices, vec![1, 4]);
    let img = download_to_file(plan.total_size, plan.block_size, &plan.blocks)
        .expect("round trip download should succeed");
    assert_eq!(img.bytes(), &data);
}

#[test]
fn round_trip_of_all_zero_file_transfers_nothing() {
    let data = vec![0u8; 16];
    let plan = upload_from_file(data.as_slice(), 4);
    assert_eq!(plan.blocks.len(), 0);
    assert_eq!(plan.block_count, 4);
    let img = download_to_file(plan.total_size, plan.block_size, &plan.blocks)
        .expect("empty download should succeed");
    assert_eq!(img.bytes(), &data);
}
