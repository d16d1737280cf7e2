use installer_analysis::bytes::ByteReader;
use installer_analysis::crc32::{crc32, feed_byte, feed_bytes};
use installer_analysis::error::AnalysisError;
use installer_analysis::inno::loader::{
    find_loader_version, known_loader, Checksum, SetupLoader, SetupLoaderOffset, KNOWN_SIGNATURES,
    SETUP_LOADER_MAGIC,
};
use installer_analysis::inno::version::InnoVersion;

const SIGNATURES: [&[u8; 12]; 7] = [
    b"rDlPtS02\x87eVx",
    b"rDlPtS04\x87eVx",
    b"rDlPtS05\x87eVx",
    b"rDlPtS06\x87eVx",
    b"rDlPtS07\x87eVx",
    b"rDlPtS\xCD\xE6\xD7{\x0B*",
    b"nS5W7dT\x83\xAA\x1B\x0Fj",
];

const VERSIONS: [(u8, u8, u8); 7] =
    [(1, 2, 10), (4, 0, 0), (4, 0, 3), (4, 0, 10), (4, 1, 6), (5, 1, 5), (5, 1, 5)];

fn reference_crc(bytes: &[u8]) -> u32 {
    let mut crc = flate2::Crc::new();
    crc.update(bytes);
    crc.sum()
}

/// Builds a loader for the k-th signature whose fields count up from 101.
fn loader_bytes(k: usize) -> Vec<u8> {
    let v = VERSIONS[k];
    let mut out = SIGNATURES[k].to_vec();
    let mut next = 101u32;
    let mut field = |out: &mut Vec<u8>| {
        out.extend_from_slice(&next.to_le_bytes());
        next += 1;
    };
    if v >= (5, 1, 5) {
        field(&mut out); // revision
    }
    field(&mut out); // minimum size
    field(&mut out); // exe offset
    if v < (4, 1, 6) {
        field(&mut out); // compressed size
    }
    field(&mut out); // uncompressed size
    field(&mut out); // checksum
    if v < (4, 0, 0) {
        field(&mut out); // message offset
    }
    field(&mut out); // header offset
    field(&mut out); // data offset
    if v >= (4, 0, 10) {
        let crc = reference_crc(&out);
        out.extend_from_slice(&crc.to_le_bytes());
    }
    out
}

#[test]
fn crc32_of_check_string() {
    assert_eq!(crc32(b"123456789"), 0xCBF4_3926);
    assert_eq!(crc32(b""), 0);
    assert_eq!(crc32(b"a"), 0xE8B7_BE43);
}

#[test]
fn crc32_agrees_with_reference_on_all_bytes() {
    let all: Vec<u8> = (0..=255u8).collect();
    assert_eq!(crc32(&all), reference_crc(&all));
    assert_eq!(feed_bytes(0xFFFF_FFFF, &all) ^ 0xFFFF_FFFF, reference_crc(&all));
    assert_eq!(feed_byte(0xFFFF_FFFF, b'a') ^ 0xFFFF_FFFF, 0xE8B7_BE43);
}

#[test]
fn every_known_signature_parses_to_its_version() {
    for k in 0..7 {
        let data = loader_bytes(k);
        let loader = SetupLoader::new(&data).unwrap();
        let v = VERSIONS[k];
        assert_eq!(loader.version.version, InnoVersion::new(v.0, v.1, v.2, 0), "signature {k}");
        assert_eq!(&loader.version.signature, SIGNATURES[k]);
        assert_eq!(loader.header_offset + 1, loader.data_offset);
    }
}

#[test]
fn known_table_matches_signatures() {
    assert_eq!(KNOWN_SIGNATURES, 7);
    for k in 0..7 {
        let entry = known_loader(k);
        assert_eq!(&entry.signature, SIGNATURES[k]);
        let found = find_loader_version(SIGNATURES[k]).unwrap();
        assert_eq!(found.version, entry.version);
    }
    assert!(find_loader_version(b"rDlPtS03\x87eVx").is_none());
    assert!(find_loader_version(b"rDlPtS02\x87eV").is_none());
    assert!(find_loader_version(b"rDlPtS02\x87eVxx").is_none());
}

#[test]
fn oldest_loader_fields() {
    let data = loader_bytes(0);
    assert_eq!(data.len(), 12 + 8 * 4);
    let loader = SetupLoader::new(&data).unwrap();
    assert_eq!(loader.revision, 0);
    assert_eq!(loader.minimum_setup_exe_size, 101);
    assert_eq!(loader.exe_offset, 102);
    assert_eq!(loader.exe_compressed_size, 103);
    assert_eq!(loader.exe_uncompressed_size, 104);
    assert_eq!(loader.exe_checksum, Checksum::Adler32(105));
    assert_eq!(loader.message_offset, 106);
    assert_eq!(loader.header_offset, 107);
    assert_eq!(loader.data_offset, 108);
}

#[test]
fn newest_loader_fields() {
    let data = loader_bytes(5);
    assert_eq!(data.len(), 12 + 7 * 4 + 4);
    let loader = SetupLoader::new(&data).unwrap();
    assert_eq!(loader.revision, 101);
    assert_eq!(loader.minimum_setup_exe_size, 102);
    assert_eq!(loader.exe_offset, 103);
    assert_eq!(loader.exe_compressed_size, 0);
    assert_eq!(loader.exe_uncompressed_size, 104);
    assert_eq!(loader.exe_checksum, Checksum::CRC32(105));
    assert_eq!(loader.message_offset, 0);
    assert_eq!(loader.header_offset, 106);
    assert_eq!(loader.data_offset, 107);
}

#[test]
fn loader_4_0_3_uses_crc32_and_keeps_compressed_size() {
    let loader = SetupLoader::new(&loader_bytes(2)).unwrap();
    assert_eq!(loader.exe_compressed_size, 103);
    assert_eq!(loader.exe_checksum, Checksum::CRC32(105));
    let loader = SetupLoader::new(&loader_bytes(1)).unwrap();
    assert_eq!(loader.exe_checksum, Checksum::Adler32(105));
    assert_eq!(loader.message_offset, 0);
}

#[test]
fn unknown_signature_is_invalid_and_reads_twelve_bytes() {
    let mut data = loader_bytes(5);
    data[3] ^= 0x20;
    assert_eq!(SetupLoader::new(&data).err(), Some(AnalysisError::InvalidSignature));
    let mut reader = ByteReader::new(&data);
    assert_eq!(SetupLoader::from_reader(&mut reader).err(), Some(AnalysisError::InvalidSignature));
    assert_eq!(reader.offset(), 12);
    assert_eq!(SetupLoader::new(b"0123456789AB").err(), Some(AnalysisError::InvalidSignature));
}

#[test]
fn corrupt_checksum_reports_actual_and_expected() {
    for k in 3..7 {
        let mut data = loader_bytes(k);
        let n = data.len();
        let actual = reference_crc(&data[..n - 4]);
        data[n - 1] ^= 0x80;
        let expected = u32::from_le_bytes([data[n - 4], data[n - 3], data[n - 2], data[n - 1]]);
        assert_eq!(
            SetupLoader::new(&data).err(),
            Some(AnalysisError::ChecksumMismatch { actual, expected })
        );
    }
}

#[test]
fn corrupt_field_is_a_checksum_mismatch() {
    let mut data = loader_bytes(4);
    let n = data.len();
    let expected = u32::from_le_bytes([data[n - 4], data[n - 3], data[n - 2], data[n - 1]]);
    data[14] ^= 1;
    let actual = reference_crc(&data[..n - 4]);
    assert_eq!(
        SetupLoader::new(&data).err(),
        Some(AnalysisError::ChecksumMismatch { actual, expected })
    );
}

#[test]
fn old_loader_has_no_checksum_to_fail() {
    let mut data = loader_bytes(2);
    data[14] ^= 1;
    assert!(SetupLoader::new(&data).is_ok());
}

#[test]
fn truncated_loader() {
    assert_eq!(SetupLoader::new(b"rDlPtS02").err(), Some(AnalysisError::TruncatedData));
    assert_eq!(SetupLoader::new(b"").err(), Some(AnalysisError::TruncatedData));
    for k in 0..7 {
        let data = loader_bytes(k);
        assert_eq!(
            SetupLoader::new(&data[..data.len() - 1]).err(),
            Some(AnalysisError::TruncatedData)
        );
        let mut longer = data.clone();
        longer.extend_from_slice(&[1, 2, 3]);
        assert!(SetupLoader::new(&longer).is_ok());
    }
}

#[test]
fn reader_stands_behind_the_loader() {
    let mut data = loader_bytes(6);
    let n = data.len();
    data.extend_from_slice(&[9, 9]);
    let mut reader = ByteReader::new(&data);
    assert!(SetupLoader::from_reader(&mut reader).is_ok());
    assert_eq!(reader.offset(), n);
    assert_eq!(reader.data_len(), n + 2);
}

#[test]
fn version_thresholds() {
    let v = InnoVersion::new(4, 0, 10, 0);
    assert!(v.at_least(4, 0, 10));
    assert!(v.at_least(4, 0, 3));
    assert!(v.at_least(3, 9, 200));
    assert!(!v.at_least(4, 0, 11));
    assert!(!v.at_least(4, 1, 0));
    assert!(!v.at_least(5, 0, 0));
    assert!(!v.is_isx());
}

#[test]
fn byte_reader_reads_little_endian() {
    let data = [0x01u8, 0x02, 0x03, 0x04, 0x05, 0x06, 0x07, 0x08, 0x09, 0xFF, 0xFF, 0xFE, 0xFF, 0xFF, 0xFF, 0x10];
    let mut r = ByteReader::new(&data);
    assert_eq!(r.read_u8(), Ok(0x01));
    assert_eq!(r.read_u16(), Ok(0x0302));
    assert_eq!(r.read_u32(), Ok(0x07060504));
    assert_eq!(r.checksum(), reference_crc(&data[..7]));
    assert_eq!(r.read_u32_with(false), Ok(0xFFFF0908));
    assert_eq!(r.checksum(), reference_crc(&data[..7]));
    assert_eq!(r.read_i32(), Ok(-2));
    assert_eq!(r.offset(), 15);
    assert_eq!(r.read_u16(), Err(AnalysisError::TruncatedData));
    assert_eq!(r.offset(), 15);
    assert_eq!(r.read_u8(), Ok(0x10));
    assert_eq!(r.read_u8(), Err(AnalysisError::TruncatedData));
    let mut r = ByteReader::new(&data);
    assert_eq!(r.read_u64(), Ok(0x0807060504030201));
    assert_eq!(r.read_u8(), Ok(9));
    assert_eq!(r.read_i16(), Ok(-1));
    assert_eq!(r.read_u32(), Ok(0xFFFFFFFE));
    assert_eq!(r.skip(2), Err(AnalysisError::TruncatedData));
    assert_eq!(r.skip(1), Ok(()));
}

#[test]
fn byte_reader_blobs() {
    let data = [2u8, 0, 0, 0, 0xAA, 0xBB, 0, 0, 0, 0, 1, 0, 0, 0, 0xCC, 5, 0, 0, 0, 1];
    let mut r = ByteReader::new(&data);
    assert_eq!(r.read_blob(), Ok(&[0xAAu8, 0xBB][..]));
    assert_eq!(r.skip_blobs(2), Ok(()));
    assert_eq!(r.offset(), 15);
    assert_eq!(r.read_blob(), Err(AnalysisError::TruncatedData));
    let mut r = ByteReader::new(&data);
    assert_eq!(r.skip_blobs(4), Err(AnalysisError::TruncatedData));
    let mut r = ByteReader::new(&data);
    assert_eq!(r.take(3, true), Ok(&[2u8, 0, 0][..]));
    assert_eq!(r.read_u8(), Ok(0));
    assert_eq!(r.read_u16(), Ok(0xBBAA));
    assert_eq!(r.read_u64(), Ok(0x0000_0001_0000_0000));
}

#[test]
fn loader_offset_table() {
    assert_eq!(SETUP_LOADER_MAGIC, u32::from_le_bytes(*b"Inno"));
    let mut data = b"Inno".to_vec();
    data.extend_from_slice(&0x0001_2345u32.to_le_bytes());
    data.extend_from_slice(&(!0x0001_2345u32).to_le_bytes());
    assert_eq!(
        SetupLoaderOffset::from_bytes(&data),
        Ok(SetupLoaderOffset { table_offset: 0x0001_2345, not_table_offset: 0xFFFE_DCBA })
    );
    assert_eq!(SetupLoaderOffset::from_bytes(&data[..11]), Err(AnalysisError::TruncatedData));
    assert_eq!(SetupLoaderOffset::from_bytes(b"Inn"), Err(AnalysisError::TruncatedData));
    data[0] = b'i';
    assert_eq!(SetupLoaderOffset::from_bytes(&data), Err(AnalysisError::InvalidSignature));
    let entry = known_loader(3);
    assert!(entry.at_least(4, 0, 10));
    assert!(!entry.at_least(4, 1, 0));
}
