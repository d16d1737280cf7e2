//! Stored text and the code pages that decode it.
use crate::error::AnalysisError;
use encoding_rs::Encoding;
use vstd::prelude::*;

verus! {

/// The longest stored text that is decoded.
pub const MAX_TEXT_LEN: usize = 0x1000_0000;

/// A legacy text encoding, named by one of its labels in the Encoding
/// Standard (`windows-1252`, `utf-16le`, ...).
#[derive(Debug, Clone)]
pub struct Codepage {
    pub label: String,
}

/// What `encoding_rs` decodes `bytes` to under the encoding that `label`
/// names, if it names one.
pub uninterp spec fn decoded_text(label: Seq<char>, bytes: Seq<u8>) -> Option<Seq<char>>;

/// Calls `encoding_rs::Encoding::for_label` and, on the encoding found,
/// `Encoding::decode`. Trusted: what comes back is `decoded_text` of the label
/// and the bytes, that is, it depends on these two alone. The length is
/// bounded because `decode` panics where the size of its buffer overflows.
#[verifier::external_body]
fn decode_with_label(label: &str, bytes: &[u8]) -> (text: Option<String>)
    requires
        bytes@.len() <= MAX_TEXT_LEN,
    ensures
        text is Some <==> decoded_text(label@, bytes@) is Some,
        text is Some ==> text.unwrap()@ == decoded_text(label@, bytes@).unwrap(),
{
    let encoding = Encoding::for_label(label.as_bytes())?;
    Some(encoding.decode(bytes).0.into_owned())
}

/// The text that stored bytes stand for: nothing stored is the empty text;
/// anything else is what the code page decodes it to, if it can.
pub open spec fn text_of(label: Seq<char>, bytes: Seq<u8>) -> Option<Seq<char>> {
    if bytes.len() == 0 {
        Some(Seq::empty())
    } else if bytes.len() > MAX_TEXT_LEN {
        None
    } else {
        decoded_text(label, bytes)
    }
}

/// An optional string as stored: nothing stored is no string.
pub open spec fn optional_text(text: Seq<char>, stored: Seq<u8>) -> Option<Seq<char>> {
    if stored.len() == 0 {
        None
    } else {
        Some(text)
    }
}

impl Codepage {
    /// The code page that `label` names.
    pub fn new(label: &str) -> (codepage: Self)
        ensures
            codepage.label@ == label@,
    {
        Codepage { label: label.to_owned() }
    }

    /// Decodes stored bytes to text.
    pub fn decode(&self, bytes: &[u8]) -> (result: Result<String, AnalysisError>)
        ensures
            match text_of(self.label@, bytes@) {
                Some(text) => result is Ok && result->Ok_0@ == text,
                None => result == Err::<String, AnalysisError>(AnalysisError::UndecodableText),
            },
    {
        if bytes.len() == 0 {
            Ok(String::new())
        } else if bytes.len() > MAX_TEXT_LEN {
            Err(AnalysisError::UndecodableText)
        } else {
            match decode_with_label(self.label.as_str(), bytes) {
                Some(text) => Ok(text),
                None => Err(AnalysisError::UndecodableText),
            }
        }
    }

    /// Decodes an optional stored string: nothing stored is `None`.
    pub fn decode_optional(&self, bytes: &[u8]) -> (result: Result<Option<String>, AnalysisError>)
        ensures
            match text_of(self.label@, bytes@) {
                Some(text) => result is Ok && option_view(result->Ok_0) == optional_text(
                    text,
                    bytes@,
                ),
                None => result == Err::<Option<String>, AnalysisError>(
                    AnalysisError::UndecodableText,
                ),
            },
    {
        if bytes.len() == 0 {
            Ok(None)
        } else {
            match self.decode(bytes) {
                Ok(text) => Ok(Some(text)),
                Err(e) => Err(e),
            }
        }
    }
}

/// The value of an optional string.
pub open spec fn option_view(s: Option<String>) -> Option<Seq<char>> {
    match s {
        Some(text) => Some(text@),
        None => None,
    }
}

} // verus!
