use installer_analysis::error::AnalysisError;
use installer_analysis::nsis::block::{BlockHeader, BlockHeaders, BlockType, BLOCK_COUNT};
use installer_analysis::nsis::codec::{decode_exact, make_lzma_stream, Compression};
use installer_analysis::nsis::header::{assemble, is_bzip2, is_lzma, sniff, Header, Sniffed};
use std::io::Read;

fn table(offsets: [u64; 8]) -> BlockHeaders {
    let mut headers = [BlockHeader { offset: 0, num: 0 }; 8];
    for (h, o) in headers.iter_mut().zip(offsets) {
        h.offset = o;
    }
    BlockHeaders(headers)
}

#[test]
fn block_region_runs_to_the_next_present_block() {
    let blocks = table([100, 0, 200, 0, 0, 0, 0, 0]);
    let data: Vec<u8> = (0..300u32).map(|i| i as u8).collect();
    assert_eq!(BlockType::Pages.bounds(&blocks), (100, 200));
    assert_eq!(BlockType::Pages.get(&data, &blocks), Ok(&data[100..200]));
}

#[test]
fn block_region_is_empty_where_no_block_follows() {
    let blocks = table([100, 0, 200, 0, 0, 0, 0, 0]);
    let data = vec![7u8; 300];
    assert_eq!(BlockType::Entries.bounds(&blocks), (200, 200));
    assert_eq!(BlockType::Entries.get(&data, &blocks), Ok(&data[200..200]));
    assert_eq!(BlockType::Strings.get(&data, &blocks), Ok(&data[0..0]));
    assert_eq!(BlockType::Data.get(&data, &blocks), Ok(&data[0..0]));
}

#[test]
fn block_region_of_an_absent_block_starts_at_zero() {
    let blocks = table([100, 0, 200, 0, 0, 0, 0, 0]);
    let data = vec![7u8; 300];
    assert_eq!(BlockType::Sections.bounds(&blocks), (0, 200));
    assert_eq!(BlockType::Sections.get(&data, &blocks).map(|s| s.len()), Ok(200));
}

#[test]
fn block_region_scans_forward_only() {
    let blocks = table([500, 40, 0, 30, 0, 0, 0, 600]);
    let data = vec![0u8; 600];
    assert_eq!(BlockType::Pages.get(&data, &blocks), Err(AnalysisError::TruncatedData));
    assert_eq!(BlockType::Sections.get(&data, &blocks), Err(AnalysisError::TruncatedData));
    assert_eq!(BlockType::Strings.get(&data, &blocks).map(|s| s.len()), Ok(570));
    assert_eq!(BlockType::Strings.get(&data[..599], &blocks), Err(AnalysisError::TruncatedData));
    assert_eq!(BlockType::BgFont.bounds(&blocks), (0, 600));
    assert_eq!(BlockType::Data.index(), 7);
    assert_eq!(blocks.index(BlockType::Sections).offset, 40);
    assert_eq!(blocks.iter().len(), BLOCK_COUNT);
}

#[test]
fn block_table_of_both_widths_has_one_shape() {
    let mut narrow = Vec::new();
    let mut wide = Vec::new();
    for k in 0..8u32 {
        narrow.extend_from_slice(&(1000 + k).to_le_bytes());
        narrow.extend_from_slice(&(k * 3).to_le_bytes());
        wide.extend_from_slice(&(1000 + k as u64).to_le_bytes());
        wide.extend_from_slice(&(k * 3).to_le_bytes());
    }
    narrow.extend_from_slice(b"rest");
    wide.extend_from_slice(b"tail!");
    let (a, rest_a) = BlockHeaders::read_dynamic_from_prefix(&narrow, false).unwrap();
    let (b, rest_b) = BlockHeaders::read_dynamic_from_prefix(&wide, true).unwrap();
    assert_eq!(a.0, b.0);
    assert_eq!(a.0[5], BlockHeader { offset: 1005, num: 15 });
    assert_eq!(rest_a, b"rest");
    assert_eq!(rest_b, b"tail!");
}

#[test]
fn block_table_wide_offsets_and_truncation() {
    let mut wide = Vec::new();
    for k in 0..8u64 {
        wide.extend_from_slice(&(0x1_0000_0000u64 + k).to_le_bytes());
        wide.extend_from_slice(&7u32.to_le_bytes());
    }
    let (t, rest) = BlockHeaders::read_dynamic_from_prefix(&wide, true).unwrap();
    assert_eq!(t.0[7].offset, 0x1_0000_0007);
    assert!(rest.is_empty());
    assert_eq!(
        BlockHeaders::read_dynamic_from_prefix(&wide[..95], true).err(),
        Some(AnalysisError::TruncatedData)
    );
    assert!(BlockHeaders::read_dynamic_from_prefix(&wide[..64], false).is_ok());
    assert_eq!(
        BlockHeaders::read_dynamic_from_prefix(&wide[..63], false).err(),
        Some(AnalysisError::TruncatedData)
    );
}

fn solid(compression: Compression) -> Sniffed {
    Sniffed { compression, is_solid: true }
}

#[test]
fn sniff_unfiltered_lzma() {
    let sig = [0x5D, 0, 0, 0x80, 0x7F, 0, 0x7F, 1, 2, 3, 4, 5];
    assert_eq!(sniff(&sig, 1000), solid(Compression::Lzma(false)));
    assert_eq!(is_lzma(&sig), Some(Compression::Lzma(false)));
    assert_eq!(is_lzma(&sig[..7]), Some(Compression::Lzma(false)));
    assert_eq!(is_lzma(&sig[..6]), None);
}

#[test]
fn sniff_filtered_lzma() {
    for first in [0u8, 1] {
        let sig = [first, 0x5D, 0, 0, 0x10, 0x20, 0, 0x00, 9, 9, 9, 9];
        assert_eq!(sniff(&sig, 1000), solid(Compression::Lzma(true)));
    }
    let sig = [2, 0x5D, 0, 0, 0x10, 0x20, 0, 0x00, 9, 9, 9, 9];
    assert_eq!(sniff(&sig, 1000), solid(Compression::Zlib));
    assert_eq!(is_lzma(&[]), None);
    assert_eq!(is_lzma(&[0]), None);
}

#[test]
fn sniff_lzma_needs_zero_at_five_and_clear_top_bit_at_six() {
    let sig = [0x5D, 0, 0, 1, 0, 0x7F, 0x00, 0, 0, 0, 0, 0];
    assert_eq!(sniff(&sig, 1000), solid(Compression::Zlib));
    let sig = [0x5D, 0, 0, 1, 0, 0, 0x80, 0, 0, 0, 0, 0];
    assert_eq!(sniff(&sig, 1000), solid(Compression::Zlib));
}

#[test]
fn sniff_bzip2_and_deflate() {
    let sig = [0x31, 0x0D, 1, 2, 3, 4, 5, 6, 7, 8, 9, 10];
    assert_eq!(sniff(&sig, 1000), solid(Compression::BZip2));
    let sig = [0x31, 0x0E, 1, 2, 3, 4, 5, 6, 7, 8, 9, 10];
    assert_eq!(sniff(&sig, 1000), solid(Compression::Zlib));
    let sig = [0xED, 0x7D, 1, 2, 3, 4, 5, 6, 7, 8, 9, 10];
    assert_eq!(sniff(&sig, 1000), solid(Compression::Zlib));
    assert!(is_bzip2(&[0x31, 13]));
    assert!(!is_bzip2(&[0x31, 14]));
    assert!(is_bzip2(&[0x31]));
    assert!(!is_bzip2(&[]));
    assert!(!is_bzip2(&[0x30, 0]));
}

#[test]
fn sniff_declared_length_means_not_compressed() {
    let sig = [0x5D, 0, 0, 0, 0, 0, 0, 1, 2, 3, 4, 5];
    assert_eq!(sniff(&sig, 0x5D), Sniffed { compression: Compression::Stored, is_solid: false });
    assert_eq!(sniff(&sig, 0x5E), solid(Compression::Lzma(false)));
}

#[test]
fn sniff_non_solid_reads_behind_the_size_field() {
    let not_solid = |compression| Sniffed { compression, is_solid: false };
    let sig = [0x10, 0x20, 0, 0x80, 0x5D, 0, 0, 1, 2, 0, 0x7F, 9];
    assert_eq!(sniff(&sig, 1000), not_solid(Compression::Lzma(false)));
    let sig = [0x10, 0x20, 0, 0x80, 1, 0x5D, 0, 0, 1, 2, 0, 0x7F];
    assert_eq!(sniff(&sig, 1000), not_solid(Compression::Lzma(true)));
    let sig = [0x10, 0x20, 0, 0x80, 0x31, 0x05, 0, 0, 1, 2, 0, 0x7F];
    assert_eq!(sniff(&sig, 1000), not_solid(Compression::BZip2));
    let sig = [0x10, 0x20, 0, 0x80, 0x78, 0x05, 0, 0, 1, 2, 0, 0x7F];
    assert_eq!(sniff(&sig, 1000), not_solid(Compression::Zlib));
    let sig = [0x31, 0x0D, 0, 0x80, 0x78, 0x05, 0, 0, 1, 2, 0, 0x7F];
    assert_eq!(sniff(&sig, 1000), not_solid(Compression::Zlib));
}

fn stored_deflate(payload: &[u8]) -> Vec<u8> {
    let n = payload.len() as u16;
    let mut out = vec![0x01];
    out.extend_from_slice(&n.to_le_bytes());
    out.extend_from_slice(&(!n).to_le_bytes());
    out.extend_from_slice(payload);
    out
}

#[test]
fn decompress_header_that_is_not_compressed() {
    let mut data = 16u32.to_le_bytes().to_vec();
    let body: Vec<u8> = (1..=20).collect();
    data.extend_from_slice(&body);
    let d = Header::decompress(&data, 16).unwrap();
    assert_eq!(d.data, &body[..16]);
    assert!(!d.is_solid);
    assert_eq!(d.compression, Compression::Stored);
    assert_eq!(d.non_solid_start_offset, 16);
    assert_eq!(Header::decompress(&data[..19], 16).err(), Some(AnalysisError::InvalidData));
}

#[test]
fn decompress_non_solid_deflate() {
    let body: Vec<u8> = (0..40u8).map(|i| i.wrapping_mul(7)).collect();
    let stream = stored_deflate(&body);
    let mut data = (0x8000_0000u32 | stream.len() as u32).to_le_bytes().to_vec();
    data.extend_from_slice(&stream);
    let d = Header::decompress(&data, 40).unwrap();
    assert_eq!(d.data, body);
    assert!(!d.is_solid);
    assert_eq!(d.compression, Compression::Zlib);
    assert_eq!(d.non_solid_start_offset, stream.len() as u32);
    let d = Header::decompress(&data, 39).unwrap();
    assert_eq!(d.data, &body[..39]);
    assert_eq!(Header::decompress(&data, 41).err(), Some(AnalysisError::InvalidData));
}

#[test]
fn decompress_solid_deflate_checks_the_declared_length() {
    let body: Vec<u8> = (0..24u8).collect();
    let mut payload = 24u32.to_le_bytes().to_vec();
    payload.extend_from_slice(&body);
    let data = stored_deflate(&payload);
    let d = Header::decompress(&data, 24).unwrap();
    assert_eq!(d.data, body);
    assert!(d.is_solid);
    assert_eq!(d.compression, Compression::Zlib);
    assert_eq!(d.non_solid_start_offset, u32::from_le_bytes([data[0], data[1], data[2], data[3]]));
    assert_eq!(Header::decompress(&data, 20).err(), Some(AnalysisError::DecodedSizeMismatch));
}

#[test]
fn decompress_needs_twelve_bytes() {
    assert_eq!(Header::decompress(&[0u8; 11], 4).err(), Some(AnalysisError::TruncatedData));
    assert_eq!(Header::decompress(&[], 0).err(), Some(AnalysisError::TruncatedData));
}

#[test]
fn assemble_from_decoder_outcomes() {
    let s = solid(Compression::BZip2);
    assert_eq!(assemble(None, s, 5, 3).err(), Some(AnalysisError::InvalidData));
    let d = assemble(Some(vec![3, 0, 0, 0, 9, 8, 7]), s, 0x8000_0005, 3).unwrap();
    assert_eq!((d.data, d.non_solid_start_offset), (vec![9, 8, 7], 0x8000_0005));
    assert_eq!(
        assemble(Some(vec![4, 0, 0, 0, 9, 8, 7]), s, 5, 3).err(),
        Some(AnalysisError::DecodedSizeMismatch)
    );
    let n = Sniffed { compression: Compression::Zlib, is_solid: false };
    let d = assemble(Some(vec![4, 0, 0]), n, 0x8000_0005, 3).unwrap();
    assert_eq!((d.data, d.non_solid_start_offset, d.is_solid), (vec![4, 0, 0], 5, false));
}

#[test]
fn decode_exact_bzip2() {
    let text: Vec<u8> = b"installer ".iter().cycle().take(500).cloned().collect();
    let mut packed = Vec::new();
    bzip2::read::BzEncoder::new(&text[..], bzip2::Compression::new(6))
        .read_to_end(&mut packed)
        .unwrap();
    assert_ne!(packed, text);
    assert_eq!(decode_exact(Compression::BZip2, &packed, 500), Some(text.clone()));
    assert_eq!(decode_exact(Compression::BZip2, &packed, 30), Some(text[..30].to_vec()));
    assert_eq!(decode_exact(Compression::BZip2, &packed, 501), None);
    assert_eq!(decode_exact(Compression::BZip2, &text, 10), None);
}

#[test]
fn decode_exact_deflate() {
    let text: Vec<u8> = b"nullsoft ".iter().cycle().take(400).cloned().collect();
    let mut packed = Vec::new();
    flate2::read::DeflateEncoder::new(&text[..], flate2::Compression::new(6))
        .read_to_end(&mut packed)
        .unwrap();
    assert!(packed.len() < text.len());
    assert_eq!(decode_exact(Compression::Zlib, &packed, 400), Some(text.clone()));
    assert_eq!(decode_exact(Compression::Zlib, &packed, 401), None);
    assert_eq!(decode_exact(Compression::Zlib, &packed, 0), Some(vec![]));
}

#[test]
fn decode_exact_lzma() {
    let text: Vec<u8> = b"setup data ".iter().cycle().take(600).cloned().collect();
    let options = liblzma::stream::LzmaOptions::new_preset(6).unwrap();
    let stream = liblzma::stream::Stream::new_lzma_encoder(&options).unwrap();
    let mut alone = Vec::new();
    liblzma::read::XzEncoder::new_stream(&text[..], stream).read_to_end(&mut alone).unwrap();
    let mut raw = alone[..5].to_vec();
    raw.extend_from_slice(&alone[13..]);
    assert_eq!(decode_exact(Compression::Lzma(false), &raw, 600), Some(text.clone()));
    assert_eq!(decode_exact(Compression::Lzma(false), &raw, 100), Some(text[..100].to_vec()));
    assert_eq!(decode_exact(Compression::Lzma(false), &raw[..4], 1), None);
    let rebuilt = make_lzma_stream(&raw);
    assert_eq!(&rebuilt[..5], &raw[..5]);
    assert_eq!(&rebuilt[5..13], &[0xFF; 8]);
    assert_eq!(&rebuilt[13..], &raw[5..]);
}

#[test]
fn decode_exact_stored() {
    assert_eq!(decode_exact(Compression::Stored, &[1, 2, 3], 2), Some(vec![1, 2]));
    assert_eq!(decode_exact(Compression::Stored, &[1, 2, 3], 3), Some(vec![1, 2, 3]));
    assert_eq!(decode_exact(Compression::Stored, &[1, 2, 3], 4), None);
}

#[test]
fn common_header_words() {
    let mut data = Vec::new();
    for k in 0..58i32 {
        data.extend_from_slice(&(k * 1000 - 20000).to_le_bytes());
    }
    data.push(0xEE);
    let h = Header::from_bytes(&data).unwrap();
    assert_eq!(h.install_reg_rootkey, -20000);
    assert_eq!(h.langtable_size, -12000);
    assert_eq!(h.code_on_reboot_failed, -1000);
    assert_eq!(h.install_types[0], 0);
    assert_eq!(h.install_types[32], 32000);
    assert_eq!(h.install_directory_ptr, 33000);
    assert_eq!(h.str_win_init, 37000);
    assert_eq!(Header::from_bytes(&data[..231]).err(), Some(AnalysisError::TruncatedData));
    assert!(Header::from_bytes(&data[..232]).is_ok());
}

#[test]
fn block_table_changed_in_place() {
    let mut blocks = table([100, 0, 200, 0, 0, 0, 0, 0]);
    for header in blocks.iter_mut().iter_mut() {
        header.num += 1;
    }
    blocks.iter_mut()[1].offset = 150;
    assert_eq!(blocks.0[1], BlockHeader { offset: 150, num: 1 });
    assert_eq!(BlockType::Pages.bounds(&blocks), (100, 150));
}
