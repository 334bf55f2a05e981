//! The base-call decoder: plain, gzip and CBCL containers on crafted bytes.

use std::io::Write;

use digestiflow::bcl::{decode_bcl_file, decode_bcl_payload, decode_gzip_bcl, parse_cbcl_header};
use digestiflow::stacks::BclLocator;
use digestiflow::IngestError;

fn gz(payload: &[u8]) -> Vec<u8> {
    let mut enc = flate2::write::GzEncoder::new(Vec::new(), flate2::Compression::default());
    enc.write_all(payload).unwrap();
    enc.finish().unwrap()
}

fn plain_bcl(bytes: &[u8]) -> Vec<u8> {
    let mut data = (bytes.len() as u32).to_le_bytes().to_vec();
    data.extend_from_slice(bytes);
    data
}

#[test]
fn zero_byte_is_a_no_call() {
    // A whole byte of zero decodes to `N`; any non-zero byte decodes by its
    // low two bits.
    let data = plain_bcl(&[0x00, 0x41, 0x42, 0x43, 0x04]);
    let chars = decode_bcl_payload(&data, 0).unwrap();
    assert_eq!(chars, vec!['N', 'C', 'G', 'T', 'A']);
}

#[test]
fn base_table_is_acgt() {
    let data = plain_bcl(&[0x04, 0x01, 0x02, 0x03]);
    let chars = decode_bcl_payload(&data, 0).unwrap();
    assert_eq!(chars, vec!['A', 'C', 'G', 'T']);
}

#[test]
fn positive_sampling_bound_clamps() {
    let data = plain_bcl(&[0x01, 0x02, 0x03, 0x01]);
    assert_eq!(decode_bcl_payload(&data, 2).unwrap(), vec!['C', 'G']);
    assert_eq!(decode_bcl_payload(&data, 9).unwrap().len(), 4);
}

#[test]
fn truncated_plain_bcl_fails() {
    assert_eq!(decode_bcl_payload(&vec![1, 0], 0), Err(IngestError::IoError));
    // The count promises more bytes than the file holds.
    assert_eq!(decode_bcl_payload(&vec![9, 0, 0, 0, 1], 0), Err(IngestError::IoError));
}

#[test]
fn gzip_bcl_decodes() {
    let data = gz(&plain_bcl(&[0x00, 0x41, 0x42]));
    let chars = decode_gzip_bcl(&data, 0).unwrap();
    assert_eq!(chars, vec!['N', 'C', 'G']);
}

#[test]
fn multi_member_gzip_decodes_across_members() {
    // Block-gzipped files concatenate many members; the payload continues
    // over the member boundary: the second cluster's byte sits in the
    // second member entirely.
    let mut whole = (2u32).to_le_bytes().to_vec();
    whole.push(0x01);
    let mut two_members = gz(&whole);
    two_members.extend_from_slice(&gz(&[0x02]));
    let chars = decode_gzip_bcl(&two_members, 0).unwrap();
    assert_eq!(chars, vec!['C', 'G']);
}

#[test]
fn garbage_gzip_fails() {
    assert_eq!(decode_gzip_bcl(&vec![1, 2, 3, 4, 5], 0), Err(IngestError::IoError));
}

/// A CBCL container with the given per-tile cluster payloads, each block
/// compressed on its own.
fn cbcl(bits_per_qscore: u8, tiles: &[(u32, &[u8])]) -> Vec<u8> {
    let mut header = Vec::new();
    header.extend_from_slice(&1u16.to_le_bytes());
    let num_bins = 1u32;
    let header_size = 2 + 4 + 1 + 1 + 4 + 8 * num_bins + 4 + 17 * tiles.len() as u32;
    header.extend_from_slice(&header_size.to_le_bytes());
    header.push(2);
    header.push(bits_per_qscore);
    header.extend_from_slice(&num_bins.to_le_bytes());
    header.extend_from_slice(&0u32.to_le_bytes());
    header.extend_from_slice(&30u32.to_le_bytes());
    header.extend_from_slice(&(tiles.len() as u32).to_le_bytes());
    let blocks: Vec<Vec<u8>> = tiles.iter().map(|(_, payload)| gz(payload)).collect();
    for (i, (clusters, payload)) in tiles.iter().enumerate() {
        header.extend_from_slice(&(1101 + i as u32).to_le_bytes());
        header.extend_from_slice(&clusters.to_le_bytes());
        header.extend_from_slice(&(payload.len() as u32).to_le_bytes());
        header.extend_from_slice(&(blocks[i].len() as u32).to_le_bytes());
        header.push(1);
    }
    assert_eq!(header.len() as u32, header_size);
    for block in blocks {
        header.extend_from_slice(&block);
    }
    header
}

fn cbcl_locator(tile: u32) -> BclLocator {
    BclLocator { path: "L001_1.cbcl".to_string(), cbcl_tile: Some(tile) }
}

#[test]
fn cbcl_header_fields_are_read() {
    let data = cbcl(2, &[(4, &[0x11, 0x22]), (2, &[0x33])]);
    let h = parse_cbcl_header(&data).unwrap();
    assert_eq!(h.version, 1);
    assert_eq!(h.bits_per_basecall, 2);
    assert_eq!(h.bits_per_qscore, 2);
    assert_eq!(h.bins, vec![(0, 30)]);
    assert_eq!(h.tiles.len(), 2);
    assert_eq!(h.tiles[0].tile_no, 1101);
    assert_eq!(h.tiles[0].num_clusters, 4);
    assert_eq!(h.tiles[1].num_clusters, 2);
}

#[test]
fn cbcl_packs_two_clusters_per_byte() {
    // For a tile with `k` clusters the decoder emits exactly `k` bases:
    // cluster `2i` from the low bits of byte `i`, cluster `2i+1` from bits
    // four and five.  `0x31 -> (1, 3)`, `0x02 -> (2, 0)`.
    let data = cbcl(2, &[(4, &[0x31, 0x02])]);
    let chars = decode_bcl_file(&cbcl_locator(0), &data, 0xFFFF).unwrap();
    assert_eq!(chars, vec!['C', 'T', 'G', 'A']);
}

#[test]
fn cbcl_odd_cluster_count_uses_half_a_byte() {
    let data = cbcl(2, &[(3, &[0x31, 0x02])]);
    let chars = decode_bcl_file(&cbcl_locator(0), &data, 0xFFFF).unwrap();
    assert_eq!(chars, vec!['C', 'T', 'G']);
}

#[test]
fn cbcl_second_tile_is_found_behind_the_first() {
    let data = cbcl(2, &[(4, &[0x00, 0x00]), (2, &[0x21])]);
    let chars = decode_bcl_file(&cbcl_locator(1), &data, 0xFFFF).unwrap();
    assert_eq!(chars, vec!['C', 'G']);
}

#[test]
fn cbcl_sampling_bound_takes_the_minimum() {
    let data = cbcl(2, &[(4, &[0x31, 0x02])]);
    let chars = decode_bcl_file(&cbcl_locator(0), &data, 3).unwrap();
    assert_eq!(chars, vec!['C', 'T', 'G']);
}

#[test]
fn cbcl_zero_sampling_bound_reads_all_clusters() {
    // Zero means all, exactly as on the plain path.
    let data = cbcl(2, &[(4, &[0x31, 0x02])]);
    let chars = decode_bcl_file(&cbcl_locator(0), &data, 0).unwrap();
    assert_eq!(chars, vec!['C', 'T', 'G', 'A']);
}

#[test]
fn cbcl_with_wrong_bit_width_fails() {
    let data = cbcl(6, &[(4, &[0x31, 0x02])]);
    assert_eq!(parse_cbcl_header(&data).map(|_| ()), Err(IngestError::BadCbcl));
    assert_eq!(
        decode_bcl_file(&cbcl_locator(0), &data, 0xFFFF).map(|_| ()),
        Err(IngestError::BadCbcl)
    );
}

#[test]
fn cbcl_with_missing_tile_fails() {
    let data = cbcl(2, &[(4, &[0x31, 0x02])]);
    assert_eq!(
        decode_bcl_file(&cbcl_locator(5), &data, 0xFFFF).map(|_| ()),
        Err(IngestError::IoError)
    );
}

#[test]
fn truncated_cbcl_header_fails() {
    assert_eq!(parse_cbcl_header(&vec![1, 0, 12, 0]).map(|_| ()), Err(IngestError::IoError));
}

#[test]
fn dispatch_by_name_and_locator() {
    // A `.bgzf` name decodes as gzip; a bare name as plain bytes.
    let plain = plain_bcl(&[0x41]);
    let loc_plain = BclLocator { path: "0005.bcl".to_string(), cbcl_tile: None };
    assert_eq!(decode_bcl_file(&loc_plain, &plain, 0).unwrap(), vec!['C']);
    let gzipped = gz(&plain);
    let loc_gz = BclLocator { path: "0005.bcl.bgzf".to_string(), cbcl_tile: None };
    assert_eq!(decode_bcl_file(&loc_gz, &gzipped, 0).unwrap(), vec!['C']);
    let loc_gz2 = BclLocator { path: "s_1_1101.bcl.gz".to_string(), cbcl_tile: None };
    assert_eq!(decode_bcl_file(&loc_gz2, &gzipped, 0).unwrap(), vec!['C']);
}
