//! The NSIS header: how it is stored, its decompression, and its leading
//! words.
use crate::bytes::{as_i32, le_u32, u32_at_start, ByteReader};
use crate::error::AnalysisError;
use crate::nsis::codec::{bytes_view, decode_exact, decode_spec, Compression};
use vstd::prelude::*;
use vstd::slice::slice_subrange;

verus! {

/// The bytes at the start of the data that decide how the header is stored.
pub const HEADER_SIGNATURE_SIZE: usize = 12;

/// The bytes of the size field that a non-solid header starts with.
pub const NON_SOLID_EXTRA_BYTES: usize = 4;

/// The bit of the size field that says that the header was compressed.
pub const IS_COMPRESSED_MASK: u32 = 0x8000_0000;

/// The most install types that a header holds, without the custom one.
pub const NSIS_MAX_INST_TYPES: usize = 32;

/// How many 32-bit words the decoded header starts with.
pub const HEADER_WORDS: usize = 58;

/// The common header at the start of the decoded data: 58 little-endian
/// 32-bit words.
#[derive(Debug, Clone, Copy)]
pub struct Header {
    pub install_reg_rootkey: i32,
    pub install_reg_key_ptr: i32,
    pub install_reg_value_ptr: i32,
    pub bg_color1: i32,
    pub bg_color2: i32,
    pub bg_textcolor: i32,
    pub lb_bg: i32,
    pub lb_fg: i32,
    pub langtable_size: i32,
    pub license_bg: i32,
    pub code_on_init: i32,
    pub code_on_inst_success: i32,
    pub code_on_inst_failed: i32,
    pub code_on_user_abort: i32,
    pub code_on_gui_init: i32,
    pub code_on_gui_end: i32,
    pub code_on_mouse_over_section: i32,
    pub code_on_verify_install_dir: i32,
    pub code_on_sel_change: i32,
    pub code_on_reboot_failed: i32,
    pub install_types: [i32; 33],
    pub install_directory_ptr: i32,
    pub install_directory_auto_append: i32,
    pub str_uninstall_child: i32,
    pub str_uninstall_command: i32,
    pub str_win_init: i32,
}

/// The signed little-endian word at `pos`.
pub open spec fn i32_at(data: Seq<u8>, pos: int) -> i32 {
    as_i32(le_u32(data.skip(pos)))
}

/// A decoded header and how it was stored.
#[derive(Debug)]
pub struct Decompressed {
    pub data: Vec<u8>,
    pub is_solid: bool,
    pub non_solid_start_offset: u32,
    pub compression: Compression,
}

/// How a header is stored: its compression, and whether it shares one stream
/// with the rest of the payload.
#[derive(Debug, Clone, Copy, PartialEq, Eq, Structural)]
pub struct Sniffed {
    pub compression: Compression,
    pub is_solid: bool,
}

/// Whether the LZMA pattern stands at `at`: `5D 00 00`, two bytes behind it a
/// zero, and behind that a byte whose top bit is clear.
pub open spec fn lzma_header_at(d: Seq<u8>, at: int) -> bool {
    &&& d.len() >= at + 7
    &&& d[at] == 0x5D
    &&& d[at + 1] == 0
    &&& d[at + 2] == 0
    &&& d[at + 5] == 0
    &&& d[at + 6] & 0x80 == 0
}

/// The kind of LZMA that `d` starts with, if any: unfiltered with the pattern
/// at the start; filtered with the pattern behind one byte that is 0 or 1.
pub open spec fn lzma_kind(d: Seq<u8>) -> Option<Compression> {
    if lzma_header_at(d, 0) {
        Some(Compression::Lzma(false))
    } else if d.len() >= 1 && d[0] <= 1 && lzma_header_at(d, 1) {
        Some(Compression::Lzma(true))
    } else {
        None
    }
}

/// Whether `d` starts as BZip2 does: `0x31`, and a second byte, if there is
/// one, below 14.
pub open spec fn bzip2_start(d: Seq<u8>) -> bool {
    d.len() >= 1 && d[0] == 0x31 && (d.len() >= 2 ==> d[1] < 14)
}

/// The compression of a stream that does not declare itself uncompressed.
pub open spec fn compressed_kind(d: Seq<u8>) -> Compression {
    if lzma_kind(d) is Some {
        lzma_kind(d).unwrap()
    } else if bzip2_start(d) {
        Compression::BZip2
    } else {
        Compression::Zlib
    }
}

/// How the header behind `signature` is stored, given the length that the
/// first header declares. In this order: a size field equal to the declared
/// length says not compressed and not solid; an LZMA pattern says solid LZMA;
/// a fourth byte of `0x80` says not solid, with the compression read behind
/// the size field; otherwise the header is solid, BZip2 or else Deflate.
pub open spec fn sniff_spec(signature: Seq<u8>, header_length: u32) -> Sniffed {
    if le_u32(signature) == header_length {
        Sniffed { compression: Compression::Stored, is_solid: false }
    } else if lzma_kind(signature) is Some {
        Sniffed { compression: lzma_kind(signature).unwrap(), is_solid: true }
    } else if signature[3] == 0x80 {
        Sniffed { compression: compressed_kind(signature.skip(4)), is_solid: false }
    } else {
        Sniffed { compression: compressed_kind(signature), is_solid: true }
    }
}

fn lzma_header_here(d: &[u8], at: usize) -> (found: bool)
    requires
        at <= 1,
    ensures
        found == lzma_header_at(d@, at as int),
{
    d.len() >= at + 7 && d[at] == 0x5D && d[at + 1] == 0 && d[at + 2] == 0 && d[at + 5] == 0 && d[at
        + 6] & 0x80 == 0
}

/// The kind of LZMA that `data` starts with, if any.
pub fn is_lzma(data: &[u8]) -> (kind: Option<Compression>)
    ensures
        kind == lzma_kind(data@),
{
    if lzma_header_here(data, 0) {
        Some(Compression::Lzma(false))
    } else if data.len() >= 1 && data[0] <= 1 && lzma_header_here(data, 1) {
        Some(Compression::Lzma(true))
    } else {
        None
    }
}

/// Whether `data` starts as BZip2 does.
pub fn is_bzip2(data: &[u8]) -> (found: bool)
    ensures
        found == bzip2_start(data@),
{
    data.len() >= 1 && data[0] == 0x31 && (data.len() < 2 || data[1] < 14)
}

fn compressed_kind_of(data: &[u8]) -> (kind: Compression)
    ensures
        kind == compressed_kind(data@),
{
    match is_lzma(data) {
        Some(kind) => kind,
        None => if is_bzip2(data) {
            Compression::BZip2
        } else {
            Compression::Zlib
        },
    }
}

/// Decides from the first twelve bytes how the header is stored.
pub fn sniff(signature: &[u8], header_length: u32) -> (sniffed: Sniffed)
    requires
        signature@.len() == HEADER_SIGNATURE_SIZE,
    ensures
        sniffed == sniff_spec(signature@, header_length),
{
    let size = match u32_at_start(signature) {
        Some(n) => n,
        None => 0,
    };
    if size == header_length {
        Sniffed { compression: Compression::Stored, is_solid: false }
    } else {
        match is_lzma(signature) {
            Some(kind) => Sniffed { compression: kind, is_solid: true },
            None => if signature[3] == 0x80 {
                let rest = slice_subrange(signature, NON_SOLID_EXTRA_BYTES, signature.len());
                assert(rest@ =~= signature@.skip(4));
                Sniffed { compression: compressed_kind_of(rest), is_solid: false }
            } else {
                Sniffed { compression: compressed_kind_of(signature), is_solid: true }
            },
        }
    }
}

/// The bytes that a header of `header_length` bytes decodes from: four more
/// where it is solid, for the length that the stream repeats.
pub open spec fn decoded_len(is_solid: bool, header_length: u32) -> int {
    if is_solid {
        header_length + 4
    } else {
        header_length as int
    }
}

/// The offset that is kept of the size field: the field itself for a solid
/// header, and the field without its top bit otherwise.
pub open spec fn start_offset(is_solid: bool, size: u32) -> u32 {
    if is_solid {
        size
    } else {
        size & 0x7FFF_FFFF
    }
}

/// Whether `result` is what `decoded` makes of a header: a stream that was
/// refused is invalid data; a solid stream must begin with the declared
/// length, or the sizes mismatch; what is left is the header.
pub open spec fn assembled(
    decoded: Option<Seq<u8>>,
    sniffed: Sniffed,
    size: u32,
    header_length: u32,
    result: Result<Decompressed, AnalysisError>,
) -> bool {
    match decoded {
        None => result == Err::<Decompressed, AnalysisError>(AnalysisError::InvalidData),
        Some(bytes) => if sniffed.is_solid && le_u32(bytes) != header_length {
            result == Err::<Decompressed, AnalysisError>(AnalysisError::DecodedSizeMismatch)
        } else {
            &&& result is Ok
            &&& result->Ok_0.data@ == (if sniffed.is_solid {
                bytes.skip(4)
            } else {
                bytes
            })
            &&& result->Ok_0.is_solid == sniffed.is_solid
            &&& result->Ok_0.compression == sniffed.compression
            &&& result->Ok_0.non_solid_start_offset == start_offset(sniffed.is_solid, size)
        },
    }
}

/// Makes the result from what the decoder gave.
pub fn assemble(decoded: Option<Vec<u8>>, sniffed: Sniffed, size: u32, header_length: u32) -> (result:
    Result<Decompressed, AnalysisError>)
    requires
        decoded is Some ==> decoded.unwrap()@.len() == decoded_len(sniffed.is_solid, header_length),
    ensures
        assembled(bytes_view(decoded), sniffed, size, header_length, result),
{
    let bytes = match decoded {
        Some(bytes) => bytes,
        None => {
            return Err(AnalysisError::InvalidData);
        },
    };
    let mut data = bytes;
    if sniffed.is_solid {
        let declared = match u32_at_start(data.as_slice()) {
            Some(n) => n,
            None => 0,
        };
        if declared != header_length {
            return Err(AnalysisError::DecodedSizeMismatch);
        }
        let ghost whole = data@;
        let mut tail: Vec<u8> = Vec::new();
        let mut i: usize = 4;
        while i < data.len()
            invariant
                4 <= i <= data@.len(),
                data@ == whole,
                tail@ == whole.subrange(4, i as int),
            decreases data.len() - i,
        {
            tail.push(data[i]);
            i = i + 1;
            assert(tail@ =~= whole.subrange(4, i as int));
        }
        assert(whole.subrange(4, i as int) =~= whole.skip(4));
        data = tail;
    }
    let non_solid_start_offset = if sniffed.is_solid {
        size
    } else {
        size & 0x7FFF_FFFF
    };
    Ok(
        Decompressed {
            data,
            is_solid: sniffed.is_solid,
            non_solid_start_offset,
            compression: sniffed.compression,
        },
    )
}

/// What the decoder is given: the data as it is for a solid header, and the
/// data behind the size field otherwise.
pub open spec fn codec_input(data: Seq<u8>, is_solid: bool) -> Seq<u8> {
    if is_solid {
        data
    } else {
        data.skip(4)
    }
}

impl Header {
    /// The words of the header, in the order stored.
    pub open spec fn words(&self) -> Seq<i32> {
        seq![
            self.install_reg_rootkey,
            self.install_reg_key_ptr,
            self.install_reg_value_ptr,
            self.bg_color1,
            self.bg_color2,
            self.bg_textcolor,
            self.lb_bg,
            self.lb_fg,
            self.langtable_size,
            self.license_bg,
            self.code_on_init,
            self.code_on_inst_success,
            self.code_on_inst_failed,
            self.code_on_user_abort,
            self.code_on_gui_init,
            self.code_on_gui_end,
            self.code_on_mouse_over_section,
            self.code_on_verify_install_dir,
            self.code_on_sel_change,
            self.code_on_reboot_failed,
        ] + self.install_types@ + seq![
            self.install_directory_ptr,
            self.install_directory_auto_append,
            self.str_uninstall_child,
            self.str_uninstall_command,
            self.str_win_init,
        ]
    }

    /// Reads the header from the start of the decoded data.
    pub fn from_bytes(data: &[u8]) -> (result: Result<Self, AnalysisError>)
        ensures
            data@.len() < 4 * HEADER_WORDS ==> result == Err::<Self, AnalysisError>(
                AnalysisError::TruncatedData,
            ),
            data@.len() >= 4 * HEADER_WORDS ==> result is Ok && result->Ok_0.words() == Seq::new(
                HEADER_WORDS as nat,
                |k: int| i32_at(data@, 4 * k),
            ),
    {
        if data.len() < 4 * HEADER_WORDS {
            return Err(AnalysisError::TruncatedData);
        }
        let mut reader = ByteReader::new(data);
        let mut w: Vec<i32> = Vec::new();
        while w.len() < HEADER_WORDS
            invariant
                w@.len() <= HEADER_WORDS,
                data@.len() >= 4 * HEADER_WORDS,
                reader.wf(),
                reader.data() == data@,
                reader.position() == 4 * w@.len(),
                forall|k: int| 0 <= k < w@.len() ==> w@[k] == i32_at(data@, 4 * k),
            decreases HEADER_WORDS - w@.len(),
        {
            proof {
                reader.lemma_position_in_bounds();
            }
            let word = match reader.read_i32() {
                Ok(n) => n,
                Err(e) => {
                    return Err(e);
                },
            };
            w.push(word);
        }
        let mut install_types = [0i32;33];
        let mut i: usize = 0;
        while i < 33
            invariant
                i <= 33,
                w@.len() == HEADER_WORDS,
                forall|k: int| 0 <= k < i ==> install_types@[k] == w@[20 + k],
            decreases 33 - i,
        {
            install_types[i] = w[20 + i];
            i = i + 1;
        }
        let header = Header {
            install_reg_rootkey: w[0],
            install_reg_key_ptr: w[1],
            install_reg_value_ptr: w[2],
            bg_color1: w[3],
            bg_color2: w[4],
            bg_textcolor: w[5],
            lb_bg: w[6],
            lb_fg: w[7],
            langtable_size: w[8],
            license_bg: w[9],
            code_on_init: w[10],
            code_on_inst_success: w[11],
            code_on_inst_failed: w[12],
            code_on_user_abort: w[13],
            code_on_gui_init: w[14],
            code_on_gui_end: w[15],
            code_on_mouse_over_section: w[16],
            code_on_verify_install_dir: w[17],
            code_on_sel_change: w[18],
            code_on_reboot_failed: w[19],
            install_types,
            install_directory_ptr: w[53],
            install_directory_auto_append: w[54],
            str_uninstall_child: w[55],
            str_uninstall_command: w[56],
            str_win_init: w[57],
        };
        assert(header.words() =~= Seq::new(HEADER_WORDS as nat, |k: int| i32_at(data@, 4 * k)));
        Ok(header)
    }

    /// Decodes the header at the start of `data`, which the first header
    /// declares to be `header_length` bytes long.
    ///
    /// Fewer than twelve bytes are a truncation. Otherwise the first twelve
    /// bytes decide how the header is stored, the matching decoder is run on
    /// the data, and the result is made of what it gives: on success the
    /// header's bytes, `header_length` of them, with the way they were
    /// stored.
    pub fn decompress(data: &[u8], header_length: u32) -> (result: Result<Decompressed, AnalysisError>)
        ensures
            data@.len() < HEADER_SIGNATURE_SIZE ==> result == Err::<Decompressed, AnalysisError>(
                AnalysisError::TruncatedData,
            ),
            data@.len() >= HEADER_SIGNATURE_SIZE ==> assembled(
                decoded_header(data@, header_length),
                sniff_spec(data@.subrange(0, 12), header_length),
                le_u32(data@),
                header_length,
                result,
            ),
            result is Ok ==> result->Ok_0.data@.len() == header_length,
    {
        if data.len() < HEADER_SIGNATURE_SIZE {
            return Err(AnalysisError::TruncatedData);
        }
        let signature = slice_subrange(data, 0, HEADER_SIGNATURE_SIZE);
        let size = match u32_at_start(signature) {
            Some(n) => n,
            None => 0,
        };
        assert(le_u32(signature@) == le_u32(data@));
        let sniffed = sniff(signature, header_length);
        let input = if sniffed.is_solid {
            data
        } else {
            let rest = slice_subrange(data, NON_SOLID_EXTRA_BYTES, data.len());
            assert(rest@ =~= data@.skip(4));
            rest
        };
        let wanted: u64 = if sniffed.is_solid {
            header_length as u64 + 4
        } else {
            header_length as u64
        };
        let decoded = if wanted <= usize::MAX as u64 {
            decode_exact(sniffed.compression, input, wanted as usize)
        } else {
            None
        };
        assemble(decoded, sniffed, size, header_length)
    }
}

/// What the decoder gives for the header at the start of `data`: the bytes
/// that the header decodes from, as many as it is declared to have and, for
/// a solid header, the four of the repeated length before them; or nothing
/// where that many cannot be addressed.
pub open spec fn decoded_header(data: Seq<u8>, header_length: u32) -> Option<Seq<u8>> {
    let sniffed = sniff_spec(data.subrange(0, 12), header_length);
    let wanted = decoded_len(sniffed.is_solid, header_length);
    if wanted <= usize::MAX {
        decode_spec(sniffed.compression, codec_input(data, sniffed.is_solid), wanted)
    } else {
        None
    }
}

/// A header whose size field is not the declared length and whose first
/// bytes show the LZMA pattern is solid, unfiltered LZMA.
pub proof fn lemma_sniff_lzma(signature: Seq<u8>, header_length: u32)
    requires
        signature.len() == HEADER_SIGNATURE_SIZE,
        le_u32(signature) != header_length,
        lzma_header_at(signature, 0),
    ensures
        sniff_spec(signature, header_length) == (Sniffed {
            compression: Compression::Lzma(false),
            is_solid: true,
        }),
{
}

/// The same pattern one byte further on, behind a byte that is 0 or 1, is
/// solid, filtered LZMA.
pub proof fn lemma_sniff_filtered_lzma(signature: Seq<u8>, header_length: u32)
    requires
        signature.len() == HEADER_SIGNATURE_SIZE,
        le_u32(signature) != header_length,
        signature[0] <= 1,
        lzma_header_at(signature, 1),
    ensures
        sniff_spec(signature, header_length) == (Sniffed {
            compression: Compression::Lzma(true),
            is_solid: true,
        }),
{
}

/// A header that starts with `0x31` and a byte below 14, and whose fourth
/// byte does not mark it as non-solid, is solid BZip2.
pub proof fn lemma_sniff_bzip2(signature: Seq<u8>, header_length: u32)
    requires
        signature.len() == HEADER_SIGNATURE_SIZE,
        le_u32(signature) != header_length,
        signature[0] == 0x31,
        signature[1] < 14,
        signature[3] != 0x80,
    ensures
        sniff_spec(signature, header_length) == (Sniffed {
            compression: Compression::BZip2,
            is_solid: true,
        }),
{
}

/// Anything else that is solid is Deflate.
pub proof fn lemma_sniff_deflate(signature: Seq<u8>, header_length: u32)
    requires
        signature.len() == HEADER_SIGNATURE_SIZE,
        le_u32(signature) != header_length,
        lzma_kind(signature) is None,
        !bzip2_start(signature),
        signature[3] != 0x80,
    ensures
        sniff_spec(signature, header_length) == (Sniffed {
            compression: Compression::Zlib,
            is_solid: true,
        }),
{
}

/// A size field equal to the declared length wins over every pattern: the
/// header is not compressed.
pub proof fn lemma_sniff_stored(signature: Seq<u8>, header_length: u32)
    requires
        signature.len() == HEADER_SIGNATURE_SIZE,
        le_u32(signature) == header_length,
    ensures
        sniff_spec(signature, header_length) == (Sniffed {
            compression: Compression::Stored,
            is_solid: false,
        }),
{
}

} // verus!
