//! File entries of the setup header.
use crate::bytes::{blob_at, blob_end, blobs_end, fixed_end, u16_at, u32_at, u64_at, u8_at, as_i16, ByteReader};
use crate::error::AnalysisError;
use crate::bytes::lemma_blobs_end_fails;
use crate::inno::flags::{
    decode_flags, decoded_flags, flag_byte_count, flag_bytes, flag_layout,
    lemma_decoded_flags_in_place, stored_flags, FileFlags, IGNORE_VERSION, ONLY_IF_DOESNT_EXIST,
    PROMPT_IF_OLDER,
};
use crate::inno::text::{option_view, optional_text, text_of, Codepage};
use crate::inno::version::InnoVersion;
use crate::inno::windows_version::{windows_version_len, WindowsVersionRange};
use vstd::prelude::*;

verus! {

/// What kind of file an entry installs.
#[derive(Debug, Clone, Copy, PartialEq, Eq, Structural)]
pub enum FileType {
    UserFile,
    UninstallExe,
    RegSvrExe,
}

/// How an existing file was treated before flags took over in 3.0.5.
#[derive(Debug, Clone, Copy, PartialEq, Eq, Structural)]
pub enum FileCopyMode {
    Normal,
    IfDoesntExist,
    AlwaysOverwrite,
    AlwaysSkipIfSameOrOlder,
}

/// A file entry of the setup header.
#[derive(Debug)]
pub struct File {
    pub source: Option<String>,
    pub destination: Option<String>,
    pub install_font_name: Option<String>,
    pub strong_assembly_name: Option<String>,
    /// Index into the data entry list
    pub location: u32,
    pub attributes: u32,
    pub external_size: u64,
    /// Index into the permission entry list
    pub permission: i16,
    pub flags: FileFlags,
    pub file_type: FileType,
}

/// The file type that a stored byte stands for.
pub open spec fn file_type_of(byte: u8) -> Option<FileType> {
    if byte == 0 {
        Some(FileType::UserFile)
    } else if byte == 1 {
        Some(FileType::UninstallExe)
    } else if byte == 2 {
        Some(FileType::RegSvrExe)
    } else {
        None
    }
}

/// The copy mode that a stored byte stands for.
pub open spec fn copy_mode_of(byte: u8) -> Option<FileCopyMode> {
    if byte == 0 {
        Some(FileCopyMode::Normal)
    } else if byte == 1 {
        Some(FileCopyMode::IfDoesntExist)
    } else if byte == 2 {
        Some(FileCopyMode::AlwaysOverwrite)
    } else if byte == 3 {
        Some(FileCopyMode::AlwaysSkipIfSameOrOlder)
    } else {
        None
    }
}

/// The flags that a copy mode stands for.
pub open spec fn copy_mode_flags(mode: FileCopyMode) -> u64 {
    match mode {
        FileCopyMode::Normal => PROMPT_IF_OLDER,
        FileCopyMode::IfDoesntExist => ONLY_IF_DOESNT_EXIST | PROMPT_IF_OLDER,
        FileCopyMode::AlwaysOverwrite => IGNORE_VERSION | PROMPT_IF_OLDER,
        FileCopyMode::AlwaysSkipIfSameOrOlder => 0,
    }
}

/// How many strings the condition of an entry holds: components, tasks,
/// languages, check, and the two install hooks, each from its version on.
pub open spec fn condition_strings(v: InnoVersion) -> nat {
    ((if v.since(2, 0, 0) || (v.isx && v.since(1, 3, 8)) {
        1int
    } else {
        0
    }) + (if v.since(2, 0, 0) || (v.isx && v.since(1, 3, 17)) {
        1int
    } else {
        0
    }) + (if v.since(4, 0, 1) {
        1int
    } else {
        0
    }) + (if v.since(4, 0, 0) || (v.isx && v.since(1, 3, 24)) {
        1int
    } else {
        0
    }) + (if v.since(4, 1, 0) {
        2int
    } else {
        0
    })) as nat
}

/// Where each part of a file entry that starts at `start` lies. A position of
/// `-1` says that the data ended before.
pub struct FileLayout {
    pub source: int,
    pub destination: int,
    pub font_name: int,
    pub assembly_name: int,
    pub condition: int,
    pub windows: int,
    pub numbers: int,
    pub copy_mode: int,
    pub permission: int,
    pub flags: int,
    pub file_type: int,
    pub end: int,
}

pub open spec fn external_size_len(v: InnoVersion) -> int {
    if v.since(4, 0, 0) {
        8
    } else {
        4
    }
}

pub open spec fn file_layout(data: Seq<u8>, start: int, v: InnoVersion) -> FileLayout {
    let source = fixed_end(
        data,
        start,
        if v.since(1, 3, 0) {
            0
        } else {
            4
        },
    );
    let destination = blob_end(data, source);
    let font_name = blob_end(data, destination);
    let assembly_name = blob_end(data, font_name);
    let condition = if v.since(5, 2, 5) {
        blob_end(data, assembly_name)
    } else {
        assembly_name
    };
    let windows = blobs_end(data, condition, condition_strings(v));
    let numbers = fixed_end(data, windows, 2 * windows_version_len(v));
    let copy_mode = fixed_end(data, numbers, 8 + external_size_len(v));
    let permission = fixed_end(
        data,
        copy_mode,
        if v.since(3, 0, 5) {
            0
        } else {
            1
        },
    );
    let flags = fixed_end(
        data,
        permission,
        if v.since(4, 1, 0) {
            2
        } else {
            0
        },
    );
    let file_type = fixed_end(data, flags, flag_bytes(flag_layout(v).len() as int));
    let end = fixed_end(data, file_type, 1);
    FileLayout {
        source,
        destination,
        font_name,
        assembly_name,
        condition,
        windows,
        numbers,
        copy_mode,
        permission,
        flags,
        file_type,
        end,
    }
}

/// The mathematical value of a [`File`].
pub struct FileSpec {
    pub source: Option<Seq<char>>,
    pub destination: Option<Seq<char>>,
    pub install_font_name: Option<Seq<char>>,
    pub strong_assembly_name: Option<Seq<char>>,
    pub location: u32,
    pub attributes: u32,
    pub external_size: u64,
    pub permission: i16,
    pub flags: u64,
    pub file_type: FileType,
}

impl View for File {
    type V = FileSpec;

    open spec fn view(&self) -> FileSpec {
        FileSpec {
            source: option_view(self.source),
            destination: option_view(self.destination),
            install_font_name: option_view(self.install_font_name),
            strong_assembly_name: option_view(self.strong_assembly_name),
            location: self.location,
            attributes: self.attributes,
            external_size: self.external_size,
            permission: self.permission,
            flags: self.flags.bits,
            file_type: self.file_type,
        }
    }
}

/// The flags of the entry laid out by `at`: those of the copy mode, before
/// 3.0.5, joined with the stored ones.
pub open spec fn file_flags(data: Seq<u8>, at: FileLayout, v: InnoVersion) -> u64 {
    (if v.since(3, 0, 5) {
        0
    } else {
        copy_mode_flags(copy_mode_of(u8_at(data, at.copy_mode)).unwrap())
    }) | decoded_flags(data, at.flags, flag_layout(v), flag_layout(v).len() as int)
}

/// The file entry that starts at `start`. The structure is read first, a
/// stored value out of range failing where it is met; the texts are decoded
/// last, in the order stored.
pub open spec fn file_at(data: Seq<u8>, start: int, label: Seq<char>, v: InnoVersion) -> Result<
    FileSpec,
    AnalysisError,
> {
    let at = file_layout(data, start, v);
    let source = text_of(label, blob_at(data, at.source));
    let destination = text_of(label, blob_at(data, at.destination));
    let font_name = text_of(label, blob_at(data, at.font_name));
    let assembly_name = text_of(label, blob_at(data, at.assembly_name));
    if at.permission < 0 {
        Err(AnalysisError::TruncatedData)
    } else if !v.since(3, 0, 5) && copy_mode_of(u8_at(data, at.copy_mode)) is None {
        Err(AnalysisError::InvalidData)
    } else if at.end < 0 {
        Err(AnalysisError::TruncatedData)
    } else if file_type_of(u8_at(data, at.file_type)) is None {
        Err(AnalysisError::InvalidData)
    } else if source is None || destination is None || font_name is None || (v.since(5, 2, 5)
        && assembly_name is None) {
        Err(AnalysisError::UndecodableText)
    } else {
        Ok(
            FileSpec {
                source: optional_text(source.unwrap(), blob_at(data, at.source)),
                destination: optional_text(destination.unwrap(), blob_at(data, at.destination)),
                install_font_name: optional_text(font_name.unwrap(), blob_at(data, at.font_name)),
                strong_assembly_name: if v.since(5, 2, 5) {
                    optional_text(assembly_name.unwrap(), blob_at(data, at.assembly_name))
                } else {
                    None
                },
                location: u32_at(data, at.numbers),
                attributes: u32_at(data, at.numbers + 4),
                external_size: if v.since(4, 0, 0) {
                    u64_at(data, at.numbers + 8)
                } else {
                    u32_at(data, at.numbers + 8) as u64
                },
                permission: if v.since(4, 1, 0) {
                    as_i16(u16_at(data, at.permission))
                } else {
                    (-1) as i16
                },
                flags: file_flags(data, at, v),
                file_type: file_type_of(u8_at(data, at.file_type)).unwrap(),
            },
        )
    }
}

/// How many strings the condition of an entry holds.
fn count_condition_strings(v: &InnoVersion) -> (n: usize)
    ensures
        n == condition_strings(*v),
{
    let mut n: usize = 0;
    if v.at_least(2, 0, 0) || (v.is_isx() && v.at_least(1, 3, 8)) {
        n = n + 1;
    }
    if v.at_least(2, 0, 0) || (v.is_isx() && v.at_least(1, 3, 17)) {
        n = n + 1;
    }
    if v.at_least(4, 0, 1) {
        n = n + 1;
    }
    if v.at_least(4, 0, 0) || (v.is_isx() && v.at_least(1, 3, 24)) {
        n = n + 1;
    }
    if v.at_least(4, 1, 0) {
        n = n + 2;
    }
    n
}

/// The flags that a stored copy mode stands for.
pub fn flags_of_copy_mode(byte: u8) -> (result: Result<u64, AnalysisError>)
    ensures
        match copy_mode_of(byte) {
            Some(mode) => result == Ok::<u64, AnalysisError>(copy_mode_flags(mode)),
            None => result == Err::<u64, AnalysisError>(AnalysisError::InvalidData),
        },
{
    if byte == 0 {
        Ok(PROMPT_IF_OLDER)
    } else if byte == 1 {
        Ok(ONLY_IF_DOESNT_EXIST | PROMPT_IF_OLDER)
    } else if byte == 2 {
        Ok(IGNORE_VERSION | PROMPT_IF_OLDER)
    } else if byte == 3 {
        Ok(0)
    } else {
        Err(AnalysisError::InvalidData)
    }
}

/// The file type that a stored byte stands for.
pub fn file_type_from(byte: u8) -> (result: Result<FileType, AnalysisError>)
    ensures
        match file_type_of(byte) {
            Some(t) => result == Ok::<FileType, AnalysisError>(t),
            None => result == Err::<FileType, AnalysisError>(AnalysisError::InvalidData),
        },
{
    if byte == 0 {
        Ok(FileType::UserFile)
    } else if byte == 1 {
        Ok(FileType::UninstallExe)
    } else if byte == 2 {
        Ok(FileType::RegSvrExe)
    } else {
        Err(AnalysisError::InvalidData)
    }
}

impl File {
    /// Reads the file entry at the reader's position, as a producer of
    /// `version` wrote it, with texts in `codepage`.
    pub fn from_reader(reader: &mut ByteReader, codepage: &Codepage, version: &InnoVersion) -> (result:
        Result<Self, AnalysisError>)
        requires
            old(reader).wf(),
        ensures
            final(reader).wf(),
            final(reader).data() == old(reader).data(),
            match file_at(old(reader).data(), old(reader).position(), codepage.label@, *version) {
                Ok(file) => result is Ok && result->Ok_0@ == file && final(reader).position()
                    == file_layout(old(reader).data(), old(reader).position(), *version).end,
                Err(e) => result == Err::<Self, AnalysisError>(e),
            },
    {
        let ghost data = reader.data();
        let ghost at = file_layout(data, reader.position(), *version);
        proof {
            reader.lemma_position_in_bounds();
            lemma_blobs_end_fails(data, condition_strings(*version));
        }
        if !version.at_least(1, 3, 0) {
            match reader.skip(4) {
                Ok(()) => {},
                Err(e) => {
                    return Err(e);
                },
            }
        }
        assert(reader.position() == at.source);
        let source = match reader.read_blob() {
            Ok(bytes) => bytes,
            Err(e) => {
                return Err(e);
            },
        };
        let destination = match reader.read_blob() {
            Ok(bytes) => bytes,
            Err(e) => {
                return Err(e);
            },
        };
        let font_name = match reader.read_blob() {
            Ok(bytes) => bytes,
            Err(e) => {
                return Err(e);
            },
        };
        assert(reader.position() == at.assembly_name);
        let mut assembly_name: Option<&[u8]> = None;
        if version.at_least(5, 2, 5) {
            assembly_name = match reader.read_blob() {
                Ok(bytes) => Some(bytes),
                Err(e) => {
                    return Err(e);
                },
            };
        }
        assert(reader.position() == at.condition);
        match reader.skip_blobs(count_condition_strings(version)) {
            Ok(()) => {},
            Err(e) => {
                return Err(e);
            },
        }
        assert(reader.position() == at.windows);
        proof {
            reader.lemma_position_in_bounds();
        }
        match WindowsVersionRange::from_reader(reader, version) {
            Ok(_) => {},
            Err(e) => {
                return Err(e);
            },
        }
        assert(reader.position() == at.numbers);
        let location = match reader.read_u32() {
            Ok(n) => n,
            Err(e) => {
                return Err(e);
            },
        };
        let attributes = match reader.read_u32() {
            Ok(n) => n,
            Err(e) => {
                return Err(e);
            },
        };
        let external_size = if version.at_least(4, 0, 0) {
            match reader.read_u64() {
                Ok(n) => n,
                Err(e) => {
                    return Err(e);
                },
            }
        } else {
            match reader.read_u32() {
                Ok(n) => n as u64,
                Err(e) => {
                    return Err(e);
                },
            }
        };
        assert(reader.position() == at.copy_mode);
        let mut flags = FileFlags::empty();
        if !version.at_least(3, 0, 5) {
            let byte = match reader.read_u8() {
                Ok(n) => n,
                Err(e) => {
                    return Err(e);
                },
            };
            match flags_of_copy_mode(byte) {
                Ok(bits) => {
                    flags.insert(bits);
                    assert(0u64 | bits == bits) by (bit_vector);
                },
                Err(e) => {
                    return Err(e);
                },
            }
        }
        assert(reader.position() == at.permission);
        let ghost mode_flags = flags.bits;
        let mut permission: i16 = -1;
        if version.at_least(4, 1, 0) {
            permission = match reader.read_i16() {
                Ok(n) => n,
                Err(e) => {
                    return Err(e);
                },
            };
        }
        assert(reader.position() == at.flags);
        let layout = stored_flags(version);
        let stored = flag_byte_count(layout.len());
        proof {
            reader.lemma_position_in_bounds();
        }
        let flag_data = match reader.take(stored, true) {
            Ok(bytes) => bytes,
            Err(e) => {
                return Err(e);
            },
        };
        proof {
            lemma_decoded_flags_in_place(data, at.flags, flag_data@, layout@, layout@.len() as int);
        }
        flags.insert(decode_flags(flag_data, &layout));
        assert(reader.position() == at.file_type);
        let type_byte = match reader.read_u8() {
            Ok(n) => n,
            Err(e) => {
                return Err(e);
            },
        };
        assert(reader.position() == at.end);
        let file_type = match file_type_from(type_byte) {
            Ok(t) => t,
            Err(e) => {
                return Err(e);
            },
        };
        let source = match codepage.decode_optional(source) {
            Ok(text) => text,
            Err(e) => {
                return Err(e);
            },
        };
        let destination = match codepage.decode_optional(destination) {
            Ok(text) => text,
            Err(e) => {
                return Err(e);
            },
        };
        let install_font_name = match codepage.decode_optional(font_name) {
            Ok(text) => text,
            Err(e) => {
                return Err(e);
            },
        };
        let strong_assembly_name = match assembly_name {
            Some(bytes) => match codepage.decode_optional(bytes) {
                Ok(text) => text,
                Err(e) => {
                    return Err(e);
                },
            },
            None => None,
        };
        Ok(
            File {
                source,
                destination,
                install_font_name,
                strong_assembly_name,
                location,
                attributes,
                external_size,
                permission,
                flags,
                file_type,
            },
        )
    }
}

} // verus!
