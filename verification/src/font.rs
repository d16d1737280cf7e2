//! Font files, recognised by their first four bytes.
use crate::error::AnalysisError;
use crate::record::{Architecture, InstallerKind, InstallerRecord};
use vstd::prelude::*;

verus! {

/// A font file, recognised by its first four bytes.
#[derive(Debug, Clone, Copy, PartialEq, Eq, Structural)]
pub struct Font;

/// Whether `b` starts with a TrueType signature: `00 01 00 00`.
pub open spec fn is_true_type(b: Seq<u8>) -> bool {
    b.len() >= 4 && b[0] == 0x00 && b[1] == 0x01 && b[2] == 0x00 && b[3] == 0x00
}

/// Whether `b` starts with the OpenType signature: `OTTO`.
pub open spec fn is_open_type(b: Seq<u8>) -> bool {
    b.len() >= 4 && b[0] == 0x4F && b[1] == 0x54 && b[2] == 0x54 && b[3] == 0x4F
}

/// Whether `b` starts with the TrueType Collection signature: `ttcf`.
pub open spec fn is_collection(b: Seq<u8>) -> bool {
    b.len() >= 4 && b[0] == 0x74 && b[1] == 0x74 && b[2] == 0x63 && b[3] == 0x66
}

/// Whether `b` starts with one of the three font signatures.
pub open spec fn is_font_data(b: Seq<u8>) -> bool {
    is_true_type(b) || is_open_type(b) || is_collection(b)
}

/// The record of a font: kind `Font`, architecture `Neutral`.
pub open spec fn font_record() -> InstallerRecord {
    InstallerRecord {
        kind: Some(InstallerKind::Font),
        architecture: Architecture::Neutral,
        nested_kind: None,
        scope: None,
    }
}

impl Font {
    /// Recognises a font by its first four bytes. Fewer than four bytes are
    /// a truncation; four bytes that are no font signature are an invalid
    /// signature.
    pub fn new(data: &[u8]) -> (result: Result<Self, AnalysisError>)
        ensures
            result == (if data@.len() < 4 {
                Err::<Self, AnalysisError>(AnalysisError::TruncatedData)
            } else if is_font_data(data@) {
                Ok(Font)
            } else {
                Err(AnalysisError::InvalidSignature)
            }),
    {
        if data.len() < 4 {
            return Err(AnalysisError::TruncatedData);
        }
        let a = data[0];
        let b = data[1];
        let c = data[2];
        let d = data[3];
        if (a == 0x00 && b == 0x01 && c == 0x00 && d == 0x00) || (a == 0x4F && b == 0x54 && c
            == 0x54 && d == 0x4F) || (a == 0x74 && b == 0x74 && c == 0x63 && d == 0x66) {
            Ok(Font)
        } else {
            Err(AnalysisError::InvalidSignature)
        }
    }

    /// The one record of a font.
    pub fn installers(&self) -> (records: Vec<InstallerRecord>)
        ensures
            records@ == seq![font_record()],
    {
        let mut records: Vec<InstallerRecord> = Vec::new();
        records.push(InstallerRecord::new(InstallerKind::Font, Architecture::Neutral));
        assert(records@ =~= seq![font_record()]);
        records
    }
}

/// Only the first four bytes count: data that agrees with a font on them is
/// a font too.
pub proof fn lemma_font_by_prefix(a: Seq<u8>, b: Seq<u8>)
    requires
        a.len() >= 4,
        b.len() >= 4,
        a.subrange(0, 4) == b.subrange(0, 4),
    ensures
        is_font_data(a) == is_font_data(b),
{
    assert(a[0] == a.subrange(0, 4)[0] && a[1] == a.subrange(0, 4)[1] && a[2] == a.subrange(0, 4)[2]
        && a[3] == a.subrange(0, 4)[3]);
    assert(b[0] == b.subrange(0, 4)[0] && b[1] == b.subrange(0, 4)[1] && b[2] == b.subrange(0, 4)[2]
        && b[3] == b.subrange(0, 4)[3]);
}

} // verus!
