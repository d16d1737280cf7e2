//! Custom messages of the setup header.
use crate::bytes::{as_i32, blob_at, blob_end, fixed_end, u32_at, ByteReader};
use crate::error::AnalysisError;
use crate::inno::text::{text_of, Codepage};
use vstd::prelude::*;

verus! {

/// A language of the installer, as far as messages need it.
#[derive(Debug)]
pub struct Language {
    pub codepage: Codepage,
}

/// A custom message of the installer.
#[derive(Debug)]
pub struct Message {
    pub name: String,
    pub value: String,
    pub language_index: i32,
}

/// The mathematical value of a [`Message`].
pub struct MessageSpec {
    pub name: Seq<char>,
    pub value: Seq<char>,
    pub language_index: i32,
}

impl View for Message {
    type V = MessageSpec;

    open spec fn view(&self) -> MessageSpec {
        MessageSpec { name: self.name@, value: self.value@, language_index: self.language_index }
    }
}

/// The label of the code page that decodes a message's value: that of the
/// language at `index` where `index` is not negative and in range, and the
/// default otherwise.
pub open spec fn value_label(languages: Seq<Language>, default: Seq<char>, index: i32) -> Seq<
    char,
> {
    if 0 <= index < languages.len() {
        languages[index as int].codepage.label@
    } else {
        default
    }
}

/// The message that starts at `start`: a name, a value and a language index.
pub open spec fn message_at(
    data: Seq<u8>,
    start: int,
    languages: Seq<Language>,
    default: Seq<char>,
) -> Result<MessageSpec, AnalysisError> {
    let value_start = blob_end(data, start);
    let index_start = blob_end(data, value_start);
    let end = fixed_end(data, index_start, 4);
    let index = as_i32(u32_at(data, index_start));
    let name = text_of(default, blob_at(data, start));
    let value = text_of(value_label(languages, default, index), blob_at(data, value_start));
    if end < 0 {
        Err(AnalysisError::TruncatedData)
    } else if name is None || value is None {
        Err(AnalysisError::UndecodableText)
    } else {
        Ok(MessageSpec { name: name.unwrap(), value: value.unwrap(), language_index: index })
    }
}

/// The position behind the message that starts at `start`, or `-1`.
pub open spec fn message_end(data: Seq<u8>, start: int) -> int {
    fixed_end(data, blob_end(data, blob_end(data, start)), 4)
}

/// The code page that decodes a message's value.
pub fn select_codepage<'a>(languages: &'a [Language], default: &'a Codepage, index: i32) -> (chosen:
    &'a Codepage)
    ensures
        chosen.label@ == value_label(languages@, default.label@, index),
{
    if index >= 0 && (index as usize) < languages.len() {
        &languages[index as usize].codepage
    } else {
        default
    }
}

impl Message {
    /// Reads the message at the reader's position.
    pub fn from_reader(reader: &mut ByteReader, languages: &[Language], codepage: &Codepage) -> (result:
        Result<Self, AnalysisError>)
        requires
            old(reader).wf(),
        ensures
            final(reader).wf(),
            final(reader).data() == old(reader).data(),
            match message_at(old(reader).data(), old(reader).position(), languages@, codepage.label@) {
                Ok(message) => result is Ok && result->Ok_0@ == message && final(reader).position()
                    == message_end(old(reader).data(), old(reader).position()),
                Err(e) => result == Err::<Self, AnalysisError>(e),
            },
    {
        let name = match reader.read_blob() {
            Ok(bytes) => bytes,
            Err(e) => {
                return Err(e);
            },
        };
        let value = match reader.read_blob() {
            Ok(bytes) => bytes,
            Err(e) => {
                return Err(e);
            },
        };
        let language_index = match reader.read_i32() {
            Ok(n) => n,
            Err(e) => {
                return Err(e);
            },
        };
        let name = match codepage.decode(name) {
            Ok(text) => text,
            Err(e) => {
                return Err(e);
            },
        };
        let chosen = select_codepage(languages, codepage, language_index);
        let value = match chosen.decode(value) {
            Ok(text) => text,
            Err(e) => {
                return Err(e);
            },
        };
        Ok(Message { name, value, language_index })
    }
}

} // verus!
