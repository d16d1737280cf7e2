//! The setup loader: signature, version-gated fields and checksum.
use crate::bytes::{u32_at, ByteReader};
use crate::crc32::crc32_spec;
use crate::error::AnalysisError;
use crate::inno::version::InnoVersion;
use vstd::prelude::*;

verus! {

pub const SETUP_LOADER_OFFSET: usize = 0x30;

pub const SETUP_LOADER_RESOURCE: u32 = 11111;

pub const SIGNATURE_LEN: usize = 12;

/// How many loader signatures are known.
pub const KNOWN_SIGNATURES: usize = 7;

/// A loader signature and the version that it stands for.
#[derive(Debug, Clone, Copy)]
pub struct SetupLoaderVersion {
    pub signature: [u8; 12],
    pub version: InnoVersion,
}

/// The tail that the signatures of the `rDlPtS0x` family share.
pub open spec fn family_signature(digit: u8) -> Seq<u8> {
    seq![0x72u8, 0x44, 0x6C, 0x50, 0x74, 0x53, 0x30, digit, 0x87, 0x65, 0x56, 0x78]
}

/// The `k`-th known signature.
pub open spec fn known_signature(k: int) -> Seq<u8> {
    if k == 0 {
        family_signature(0x32)
    } else if k == 1 {
        family_signature(0x34)
    } else if k == 2 {
        family_signature(0x35)
    } else if k == 3 {
        family_signature(0x36)
    } else if k == 4 {
        family_signature(0x37)
    } else if k == 5 {
        seq![0x72u8, 0x44, 0x6C, 0x50, 0x74, 0x53, 0xCD, 0xE6, 0xD7, 0x7B, 0x0B, 0x2A]
    } else {
        seq![0x6Eu8, 0x53, 0x35, 0x57, 0x37, 0x64, 0x54, 0x83, 0xAA, 0x1B, 0x0F, 0x6A]
    }
}

/// The version that the `k`-th known signature stands for.
pub open spec fn known_version(k: int) -> InnoVersion {
    if k == 0 {
        InnoVersion { major: 1, minor: 2, patch: 10, revision: 0, isx: false }
    } else if k == 1 {
        InnoVersion { major: 4, minor: 0, patch: 0, revision: 0, isx: false }
    } else if k == 2 {
        InnoVersion { major: 4, minor: 0, patch: 3, revision: 0, isx: false }
    } else if k == 3 {
        InnoVersion { major: 4, minor: 0, patch: 10, revision: 0, isx: false }
    } else if k == 4 {
        InnoVersion { major: 4, minor: 1, patch: 6, revision: 0, isx: false }
    } else {
        InnoVersion { major: 5, minor: 1, patch: 5, revision: 0, isx: false }
    }
}

/// Whether `signature` is, byte for byte, one of the known signatures.
pub open spec fn is_known_signature(signature: Seq<u8>) -> bool {
    exists|k: int| 0 <= k < KNOWN_SIGNATURES && known_signature(k) == signature
}

/// The place of `signature` in the table; meaningful where it is known.
pub open spec fn signature_index(signature: Seq<u8>) -> int {
    choose|k: int| 0 <= k < KNOWN_SIGNATURES && known_signature(k) == signature
}

/// No two entries of the table share a signature, so a signature has at most
/// one place in it.
pub proof fn lemma_signatures_distinct(j: int, k: int)
    requires
        0 <= j < KNOWN_SIGNATURES,
        0 <= k < KNOWN_SIGNATURES,
        known_signature(j) == known_signature(k),
    ensures
        j == k,
{
    let a = known_signature(j);
    let b = known_signature(k);
    assert(a[0] == b[0] && a[6] == b[6] && a[7] == b[7]);
}

/// Every known signature is found at its own place, with its own version.
pub proof fn lemma_known_signature_found(k: int)
    requires
        0 <= k < KNOWN_SIGNATURES,
    ensures
        is_known_signature(known_signature(k)),
        signature_index(known_signature(k)) == k,
{
    lemma_signatures_distinct(signature_index(known_signature(k)), k);
}

/// The `k`-th entry of the table.
pub fn known_loader(k: usize) -> (entry: SetupLoaderVersion)
    requires
        k < KNOWN_SIGNATURES,
    ensures
        entry.signature@ == known_signature(k as int),
        entry.version == known_version(k as int),
{
    let entry = if k == 0 {
        SetupLoaderVersion {
            signature: [0x72, 0x44, 0x6C, 0x50, 0x74, 0x53, 0x30, 0x32, 0x87, 0x65, 0x56, 0x78],
            version: InnoVersion::new(1, 2, 10, 0),
        }
    } else if k == 1 {
        SetupLoaderVersion {
            signature: [0x72, 0x44, 0x6C, 0x50, 0x74, 0x53, 0x30, 0x34, 0x87, 0x65, 0x56, 0x78],
            version: InnoVersion::new(4, 0, 0, 0),
        }
    } else if k == 2 {
        SetupLoaderVersion {
            signature: [0x72, 0x44, 0x6C, 0x50, 0x74, 0x53, 0x30, 0x35, 0x87, 0x65, 0x56, 0x78],
            version: InnoVersion::new(4, 0, 3, 0),
        }
    } else if k == 3 {
        SetupLoaderVersion {
            signature: [0x72, 0x44, 0x6C, 0x50, 0x74, 0x53, 0x30, 0x36, 0x87, 0x65, 0x56, 0x78],
            version: InnoVersion::new(4, 0, 10, 0),
        }
    } else if k == 4 {
        SetupLoaderVersion {
            signature: [0x72, 0x44, 0x6C, 0x50, 0x74, 0x53, 0x30, 0x37, 0x87, 0x65, 0x56, 0x78],
            version: InnoVersion::new(4, 1, 6, 0),
        }
    } else if k == 5 {
        SetupLoaderVersion {
            signature: [0x72, 0x44, 0x6C, 0x50, 0x74, 0x53, 0xCD, 0xE6, 0xD7, 0x7B, 0x0B, 0x2A],
            version: InnoVersion::new(5, 1, 5, 0),
        }
    } else {
        SetupLoaderVersion {
            signature: [0x6E, 0x53, 0x35, 0x57, 0x37, 0x64, 0x54, 0x83, 0xAA, 0x1B, 0x0F, 0x6A],
            version: InnoVersion::new(5, 1, 5, 0),
        }
    };
    assert(entry.signature@ =~= known_signature(k as int));
    entry
}

/// Whether `bytes` is exactly the signature `signature`.
fn same_signature(bytes: &[u8], signature: &[u8; 12]) -> (same: bool)
    ensures
        same == (bytes@ == signature@),
{
    if bytes.len() != 12 {
        return false;
    }
    let mut i: usize = 0;
    while i < 12
        invariant
            i <= 12,
            bytes@.len() == 12,
            forall|j: int| 0 <= j < i ==> bytes@[j] == signature@[j],
        decreases 12 - i,
    {
        if bytes[i] != signature[i] {
            return false;
        }
        i = i + 1;
    }
    assert(bytes@ =~= signature@);
    true
}

/// Looks a signature up in the table: an exact match of all twelve bytes, or
/// nothing.
pub fn find_loader_version(signature: &[u8]) -> (found: Option<SetupLoaderVersion>)
    ensures
        found is Some <==> is_known_signature(signature@),
        found is Some ==> found.unwrap().signature@ == signature@ && found.unwrap().version
            == known_version(signature_index(signature@)),
{
    let mut k: usize = 0;
    while k < KNOWN_SIGNATURES
        invariant
            k <= KNOWN_SIGNATURES,
            forall|j: int| 0 <= j < k ==> known_signature(j) != signature@,
        decreases KNOWN_SIGNATURES - k,
    {
        let entry = known_loader(k);
        if same_signature(signature, &entry.signature) {
            proof {
                lemma_signatures_distinct(signature_index(signature@), k as int);
            }
            return Some(entry);
        }
        k = k + 1;
    }
    None
}

impl SetupLoaderVersion {
    /// Whether the loader's version is `major.minor.patch` or later.
    pub fn at_least(&self, major: u8, minor: u8, patch: u8) -> (result: bool)
        ensures
            result == self.version.since(major, minor, patch),
    {
        self.version.at_least(major, minor, patch)
    }
}

/// The magic number of the offset table: `Inno`, read as a little-endian
/// number.
pub const SETUP_LOADER_MAGIC: u32 = 0x6F6E_6E49;

/// Where the executable says that its setup loader lies.
#[derive(Debug, Clone, Copy, PartialEq, Eq, Structural)]
pub struct SetupLoaderOffset {
    pub table_offset: u32,
    pub not_table_offset: u32,
}

/// What the twelve bytes at the start of `data` say of the loader's place:
/// the magic number, the offset, and the offset once more, inverted.
pub open spec fn loader_offset_at(data: Seq<u8>) -> Result<SetupLoaderOffset, AnalysisError> {
    if data.len() < 12 {
        Err(AnalysisError::TruncatedData)
    } else if u32_at(data, 0) != SETUP_LOADER_MAGIC {
        Err(AnalysisError::InvalidSignature)
    } else {
        Ok(SetupLoaderOffset { table_offset: u32_at(data, 4), not_table_offset: u32_at(data, 8) })
    }
}

impl SetupLoaderOffset {
    /// Reads the offset table at the start of `data`.
    pub fn from_bytes(data: &[u8]) -> (result: Result<Self, AnalysisError>)
        ensures
            result == loader_offset_at(data@),
    {
        let mut reader = ByteReader::new(data);
        let magic = match reader.read_u32() {
            Ok(n) => n,
            Err(e) => {
                return Err(e);
            },
        };
        if data.len() < 12 {
            return Err(AnalysisError::TruncatedData);
        }
        if magic != SETUP_LOADER_MAGIC {
            return Err(AnalysisError::InvalidSignature);
        }
        let table_offset = match reader.read_u32() {
            Ok(n) => n,
            Err(e) => {
                return Err(e);
            },
        };
        let not_table_offset = match reader.read_u32() {
            Ok(n) => n,
            Err(e) => {
                return Err(e);
            },
        };
        Ok(SetupLoaderOffset { table_offset, not_table_offset })
    }
}

/// A checksum of the embedded executable, by the algorithm that the version
/// uses.
#[derive(Debug, Clone, Copy, PartialEq, Eq, Structural)]
pub enum Checksum {
    Adler32(u32),
    CRC32(u32),
}

/// The preamble that identifies the producer's version and locates the
/// compressed header and data.
#[derive(Debug, Clone, Copy)]
pub struct SetupLoader {
    pub version: SetupLoaderVersion,
    pub revision: u32,
    /// Minimum expected size of setup.exe
    pub minimum_setup_exe_size: u32,
    /// Offset of compressed setup.e32
    pub exe_offset: u32,
    /// Size of setup.e32 after compression
    pub exe_compressed_size: u32,
    /// Size of setup.e32 before compression
    pub exe_uncompressed_size: u32,
    /// Checksum of setup.e32 before compression
    pub exe_checksum: Checksum,
    pub message_offset: u32,
    /// Offset of embedded setup-0.bin data
    pub header_offset: u32,
    /// Offset of embedded setup-1.bin data
    pub data_offset: u32,
}

/// The bytes that the `revision` field takes: four from 5.1.5 on.
pub open spec fn revision_len(v: InnoVersion) -> int {
    if v.since(5, 1, 5) {
        4
    } else {
        0
    }
}

/// The bytes that `exe_compressed_size` takes: four before 4.1.6.
pub open spec fn compressed_size_len(v: InnoVersion) -> int {
    if v.since(4, 1, 6) {
        0
    } else {
        4
    }
}

/// The bytes that `message_offset` takes: four before 4.0.0.
pub open spec fn message_offset_len(v: InnoVersion) -> int {
    if v.since(4, 0, 0) {
        0
    } else {
        4
    }
}

/// The bytes that the stored checksum takes: four from 4.0.10 on.
pub open spec fn trailer_len(v: InnoVersion) -> int {
    if v.since(4, 0, 10) {
        4
    } else {
        0
    }
}

/// Where the stored checksum would start: behind the signature and the fields.
pub open spec fn fields_end(v: InnoVersion) -> int {
    12 + revision_len(v) + 8 + compressed_size_len(v) + 8 + message_offset_len(v) + 8
}

/// The length of the whole loader.
pub open spec fn loader_len(v: InnoVersion) -> int {
    fields_end(v) + trailer_len(v)
}

/// The fields of a loader of version `v` as they lie in `data`, which holds
/// at least `loader_len(v)` bytes.
pub open spec fn loader_fields(data: Seq<u8>, v: InnoVersion) -> SetupLoaderSpec {
    let a = 12 + revision_len(v);
    let b = a + 8 + compressed_size_len(v);
    let c = b + 8 + message_offset_len(v);
    SetupLoaderSpec {
        signature: data.subrange(0, 12),
        version: v,
        revision: if v.since(5, 1, 5) {
            u32_at(data, 12)
        } else {
            0
        },
        minimum_setup_exe_size: u32_at(data, a),
        exe_offset: u32_at(data, a + 4),
        exe_compressed_size: if v.since(4, 1, 6) {
            0
        } else {
            u32_at(data, a + 8)
        },
        exe_uncompressed_size: u32_at(data, b),
        exe_checksum: if v.since(4, 0, 3) {
            Checksum::CRC32(u32_at(data, b + 4))
        } else {
            Checksum::Adler32(u32_at(data, b + 4))
        },
        message_offset: if v.since(4, 0, 0) {
            0
        } else {
            u32_at(data, b + 8)
        },
        header_offset: u32_at(data, c),
        data_offset: u32_at(data, c + 4),
    }
}

/// The mathematical value of a [`SetupLoader`].
pub struct SetupLoaderSpec {
    pub signature: Seq<u8>,
    pub version: InnoVersion,
    pub revision: u32,
    pub minimum_setup_exe_size: u32,
    pub exe_offset: u32,
    pub exe_compressed_size: u32,
    pub exe_uncompressed_size: u32,
    pub exe_checksum: Checksum,
    pub message_offset: u32,
    pub header_offset: u32,
    pub data_offset: u32,
}

impl View for SetupLoader {
    type V = SetupLoaderSpec;

    open spec fn view(&self) -> SetupLoaderSpec {
        SetupLoaderSpec {
            signature: self.version.signature@,
            version: self.version.version,
            revision: self.revision,
            minimum_setup_exe_size: self.minimum_setup_exe_size,
            exe_offset: self.exe_offset,
            exe_compressed_size: self.exe_compressed_size,
            exe_uncompressed_size: self.exe_uncompressed_size,
            exe_checksum: self.exe_checksum,
            message_offset: self.message_offset,
            header_offset: self.header_offset,
            data_offset: self.data_offset,
        }
    }
}

/// What parsing `data` as a setup loader gives. The signature is read first
/// and looked up; then the fields that the version has; from 4.0.10 on the
/// stored checksum must equal the CRC-32 of everything before it.
pub open spec fn parse_loader(data: Seq<u8>) -> Result<SetupLoaderSpec, AnalysisError> {
    if data.len() < 12 {
        Err(AnalysisError::TruncatedData)
    } else if !is_known_signature(data.subrange(0, 12)) {
        Err(AnalysisError::InvalidSignature)
    } else {
        let v = known_version(signature_index(data.subrange(0, 12)));
        if data.len() < loader_len(v) {
            Err(AnalysisError::TruncatedData)
        } else if v.since(4, 0, 10) && crc32_spec(data.subrange(0, fields_end(v))) != u32_at(
            data,
            fields_end(v),
        ) {
            Err(
                AnalysisError::ChecksumMismatch {
                    actual: crc32_spec(data.subrange(0, fields_end(v))),
                    expected: u32_at(data, fields_end(v)),
                },
            )
        } else {
            Ok(loader_fields(data, v))
        }
    }
}

/// How many bytes parsing `data` reads: on an unknown signature the twelve
/// bytes of the signature and no more.
pub open spec fn loader_consumed(data: Seq<u8>) -> int {
    if data.len() < 12 {
        0
    } else if !is_known_signature(data.subrange(0, 12)) {
        12
    } else {
        let v = known_version(signature_index(data.subrange(0, 12)));
        if data.len() < loader_len(v) {
            12
        } else {
            loader_len(v)
        }
    }
}

impl SetupLoader {
    /// Parses the setup loader at the start of `setup_loader_data`.
    pub fn new(setup_loader_data: &[u8]) -> (result: Result<Self, AnalysisError>)
        ensures
            match parse_loader(setup_loader_data@) {
                Ok(loader) => result is Ok && result->Ok_0@ == loader,
                Err(e) => result == Err::<Self, AnalysisError>(e),
            },
    {
        let mut reader = ByteReader::new(setup_loader_data);
        SetupLoader::from_reader(&mut reader)
    }

    /// Parses the setup loader from a reader that stands at the start of its
    /// data and has hashed nothing.
    pub fn from_reader(reader: &mut ByteReader) -> (result: Result<Self, AnalysisError>)
        requires
            old(reader).wf(),
            old(reader).position() == 0,
            old(reader).hashed() == Seq::<u8>::empty(),
        ensures
            final(reader).wf(),
            final(reader).data() == old(reader).data(),
            match parse_loader(old(reader).data()) {
                Ok(loader) => result is Ok && result->Ok_0@ == loader,
                Err(e) => result == Err::<Self, AnalysisError>(e),
            },
            parse_loader(old(reader).data()) is Ok ==> final(reader).position() == loader_consumed(
                old(reader).data(),
            ),
            parse_loader(old(reader).data()) == Err::<SetupLoaderSpec, AnalysisError>(
                AnalysisError::InvalidSignature,
            ) ==> final(reader).position() == 12,
    {
        let ghost data = reader.data();
        let signature = match reader.take(SIGNATURE_LEN, true) {
            Ok(bytes) => bytes,
            Err(e) => {
                return Err(e);
            },
        };
        let loader_version = match find_loader_version(signature) {
            Some(found) => found,
            None => {
                return Err(AnalysisError::InvalidSignature);
            },
        };
        let v = loader_version.version;
        assert(reader.hashed() =~= data.subrange(0, 12));
        if reader.data_len() - 12 < loader_tail_len(&v) {
            return Err(AnalysisError::TruncatedData);
        }
        let revision = if v.at_least(5, 1, 5) {
            read_field(reader, true)
        } else {
            0
        };
        let minimum_setup_exe_size = read_field(reader, true);
        let exe_offset = read_field(reader, true);
        let exe_compressed_size = if v.at_least(4, 1, 6) {
            0
        } else {
            read_field(reader, true)
        };
        let exe_uncompressed_size = read_field(reader, true);
        let exe_checksum = if v.at_least(4, 0, 3) {
            Checksum::CRC32(read_field(reader, true))
        } else {
            Checksum::Adler32(read_field(reader, true))
        };
        let message_offset = if v.at_least(4, 0, 0) {
            0
        } else {
            read_field(reader, false)
        };
        let header_offset = read_field(reader, true);
        let data_offset = read_field(reader, true);
        assert(reader.position() == fields_end(v));
        if v.at_least(4, 0, 10) {
            assert(reader.hashed() =~= data.subrange(0, fields_end(v)));
            let expected_checksum = read_field(reader, false);
            let actual_checksum = reader.checksum();
            if actual_checksum != expected_checksum {
                return Err(
                    AnalysisError::ChecksumMismatch {
                        actual: actual_checksum,
                        expected: expected_checksum,
                    },
                );
            }
        }
        Ok(
            SetupLoader {
                version: loader_version,
                revision,
                minimum_setup_exe_size,
                exe_offset,
                exe_compressed_size,
                exe_uncompressed_size,
                exe_checksum,
                message_offset,
                header_offset,
                data_offset,
            },
        )
    }
}

/// The length of what follows the signature in a loader of version `v`.
fn loader_tail_len(v: &InnoVersion) -> (n: usize)
    ensures
        n == loader_len(*v) - 12,
{
    let mut n: usize = 24;
    if v.at_least(5, 1, 5) {
        n = n + 4;
    }
    if !v.at_least(4, 1, 6) {
        n = n + 4;
    }
    if !v.at_least(4, 0, 0) {
        n = n + 4;
    }
    if v.at_least(4, 0, 10) {
        n = n + 4;
    }
    n
}

/// Reads one `u32` field where the data is known to hold it.
fn read_field(reader: &mut ByteReader, hash: bool) -> (n: u32)
    requires
        old(reader).wf(),
        old(reader).position() + 4 <= old(reader).data().len(),
    ensures
        old(reader).stepped(final(reader), 4, hash),
        n == u32_at(old(reader).data(), old(reader).position()),
{
    proof {
        reader.lemma_position_in_bounds();
    }
    match reader.read_u32_with(hash) {
        Ok(n) => n,
        Err(_) => 0,
    }
}

/// A buffer that begins with the `k`-th known signature, holds every field
/// of that version and, where the version stores a checksum, the right one,
/// parses to a loader of exactly the version that the signature stands for.
pub proof fn lemma_known_signature_parses(data: Seq<u8>, k: int)
    requires
        0 <= k < KNOWN_SIGNATURES,
        data.len() >= loader_len(known_version(k)),
        data.subrange(0, 12) == known_signature(k),
        known_version(k).since(4, 0, 10) ==> u32_at(data, fields_end(known_version(k)))
            == crc32_spec(data.subrange(0, fields_end(known_version(k)))),
    ensures
        parse_loader(data) is Ok,
        parse_loader(data)->Ok_0.version == known_version(k),
        parse_loader(data)->Ok_0.signature == known_signature(k),
{
    lemma_known_signature_found(k);
}

/// Twelve bytes that match no known signature fail as an invalid signature,
/// whatever follows them, and nothing behind them is read.
pub proof fn lemma_unknown_signature_rejected(data: Seq<u8>)
    requires
        data.len() >= 12,
        !is_known_signature(data.subrange(0, 12)),
    ensures
        parse_loader(data) == Err::<SetupLoaderSpec, AnalysisError>(
            AnalysisError::InvalidSignature,
        ),
        loader_consumed(data) == 12,
{
}

/// A complete loader of a version from 4.0.10 on whose stored checksum is not
/// the CRC-32 of the bytes before it fails with both values: the computed one
/// as `actual`, the stored one as `expected`.
pub proof fn lemma_corrupt_checksum_rejected(data: Seq<u8>, k: int)
    requires
        0 <= k < KNOWN_SIGNATURES,
        known_version(k).since(4, 0, 10),
        data.len() >= loader_len(known_version(k)),
        data.subrange(0, 12) == known_signature(k),
        u32_at(data, fields_end(known_version(k))) != crc32_spec(
            data.subrange(0, fields_end(known_version(k))),
        ),
    ensures
        parse_loader(data) == Err::<SetupLoaderSpec, AnalysisError>(
            AnalysisError::ChecksumMismatch {
                actual: crc32_spec(data.subrange(0, fields_end(known_version(k)))),
                expected: u32_at(data, fields_end(known_version(k))),
            },
        ),
{
    lemma_known_signature_found(k);
}

} // verus!
