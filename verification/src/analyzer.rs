//! The dispatcher: from a file name's extension to the decoder of its format,
//! and the provenance strings of an executable's version resource.
use crate::error::AnalysisError;
use crate::font::{font_record, is_font_data, Font};
use crate::record::InstallerRecord;
use camino::Utf8Path;
use vstd::prelude::*;
use vstd::string::*;

verus! {

/// The file extensions that name a format.
#[derive(Debug, Clone, Copy, PartialEq, Eq, Structural)]
pub enum FileExtension {
    Msi,
    Msix,
    Appx,
    MsixBundle,
    AppxBundle,
    Zip,
    Exe,
    Fnt,
    Otc,
    Otf,
    Ttc,
    Ttf,
}

/// The decoder that a format goes to.
#[derive(Debug, Clone, Copy, PartialEq, Eq, Structural)]
pub enum Route {
    Msi,
    Msix,
    MsixBundle,
    Zip,
    Exe,
    Font,
}

/// The lower-case form of an ASCII letter; any other character is itself.
pub open spec fn ascii_lower(c: char) -> char {
    if 'A' <= c && c <= 'Z' {
        ((c as u8 + 32) as u8) as char
    } else {
        c
    }
}

/// `s` with its ASCII letters in lower case.
pub open spec fn lowered(s: Seq<char>) -> Seq<char> {
    Seq::new(s.len(), |i: int| ascii_lower(s[i]))
}

/// The format that a lower-case extension names.
pub open spec fn extension_named(s: Seq<char>) -> Option<FileExtension> {
    if s == "msi"@ {
        Some(FileExtension::Msi)
    } else if s == "msix"@ {
        Some(FileExtension::Msix)
    } else if s == "appx"@ {
        Some(FileExtension::Appx)
    } else if s == "msixbundle"@ {
        Some(FileExtension::MsixBundle)
    } else if s == "appxbundle"@ {
        Some(FileExtension::AppxBundle)
    } else if s == "zip"@ {
        Some(FileExtension::Zip)
    } else if s == "exe"@ {
        Some(FileExtension::Exe)
    } else if s == "fnt"@ {
        Some(FileExtension::Fnt)
    } else if s == "otc"@ {
        Some(FileExtension::Otc)
    } else if s == "otf"@ {
        Some(FileExtension::Otf)
    } else if s == "ttc"@ {
        Some(FileExtension::Ttc)
    } else if s == "ttf"@ {
        Some(FileExtension::Ttf)
    } else {
        None
    }
}

/// The format that an extension names, whatever the case of its letters.
pub open spec fn format_of(extension: Option<Seq<char>>) -> Option<FileExtension> {
    match extension {
        Some(s) => extension_named(lowered(s)),
        None => None,
    }
}

fn to_ascii_lower(c: char) -> (lower: char)
    ensures
        lower == ascii_lower(c),
{
    if 'A' <= c && c <= 'Z' {
        (c as u8 + 32) as char
    } else {
        c
    }
}

/// Whether `text` is `word` but for the case of its ASCII letters.
fn is_word(text: &str, word: &str) -> (same: bool)
    ensures
        same == (lowered(text@) == word@),
{
    let n = text.unicode_len();
    if n != word.unicode_len() {
        return false;
    }
    let mut i: usize = 0;
    while i < n
        invariant
            i <= n,
            n == text@.len(),
            n == word@.len(),
            forall|j: int| 0 <= j < i ==> ascii_lower(text@[j]) == word@[j],
        decreases n - i,
    {
        if to_ascii_lower(text.get_char(i)) != word.get_char(i) {
            assert(lowered(text@)[i as int] != word@[i as int]);
            return false;
        }
        i = i + 1;
    }
    assert(lowered(text@) =~= word@);
    true
}

impl FileExtension {
    /// The format that `extension` names, whatever the case of its letters.
    pub fn parse(extension: &str) -> (result: Result<Self, AnalysisError>)
        ensures
            match extension_named(lowered(extension@)) {
                Some(format) => result == Ok::<Self, AnalysisError>(format),
                None => result == Err::<Self, AnalysisError>(AnalysisError::UnsupportedFormat),
            },
    {
        if is_word(extension, "msi") {
            Ok(FileExtension::Msi)
        } else if is_word(extension, "msix") {
            Ok(FileExtension::Msix)
        } else if is_word(extension, "appx") {
            Ok(FileExtension::Appx)
        } else if is_word(extension, "msixbundle") {
            Ok(FileExtension::MsixBundle)
        } else if is_word(extension, "appxbundle") {
            Ok(FileExtension::AppxBundle)
        } else if is_word(extension, "zip") {
            Ok(FileExtension::Zip)
        } else if is_word(extension, "exe") {
            Ok(FileExtension::Exe)
        } else if is_word(extension, "fnt") {
            Ok(FileExtension::Fnt)
        } else if is_word(extension, "otc") {
            Ok(FileExtension::Otc)
        } else if is_word(extension, "otf") {
            Ok(FileExtension::Otf)
        } else if is_word(extension, "ttc") {
            Ok(FileExtension::Ttc)
        } else if is_word(extension, "ttf") {
            Ok(FileExtension::Ttf)
        } else {
            Err(AnalysisError::UnsupportedFormat)
        }
    }

    /// The decoder that the format goes to.
    pub open spec fn spec_route(self) -> Route {
        match self {
            FileExtension::Msi => Route::Msi,
            FileExtension::Msix | FileExtension::Appx => Route::Msix,
            FileExtension::MsixBundle | FileExtension::AppxBundle => Route::MsixBundle,
            FileExtension::Zip => Route::Zip,
            FileExtension::Exe => Route::Exe,
            FileExtension::Fnt
            | FileExtension::Otc
            | FileExtension::Otf
            | FileExtension::Ttc
            | FileExtension::Ttf => Route::Font,
        }
    }

    /// The decoder that the format goes to.
    pub fn route(self) -> (route: Route)
        ensures
            route == self.spec_route(),
    {
        match self {
            FileExtension::Msi => Route::Msi,
            FileExtension::Msix | FileExtension::Appx => Route::Msix,
            FileExtension::MsixBundle | FileExtension::AppxBundle => Route::MsixBundle,
            FileExtension::Zip => Route::Zip,
            FileExtension::Exe => Route::Exe,
            FileExtension::Fnt
            | FileExtension::Otc
            | FileExtension::Otf
            | FileExtension::Ttc
            | FileExtension::Ttf => Route::Font,
        }
    }
}

/// Calls `camino::Utf8Path::new` and `Utf8Path::extension`. Trusted: an
/// extension is the part of the file name behind its last `.`, so there is
/// one only where the name holds a `.`, and it holds none itself. Which part
/// of a path is its file name depends on the separators of the platform, so
/// no more is claimed.
#[verifier::external_body]
fn path_extension(file_name: &str) -> (extension: Option<String>)
    ensures
        extension is Some ==> file_name@.contains('.') && !extension.unwrap()@.contains('.'),
{
    Some(Utf8Path::new(file_name).extension()?.to_owned())
}

/// The result of analysing one file.
#[derive(Debug)]
pub struct Analyzer {
    pub file_name: String,
    pub copyright: Option<String>,
    pub package_name: Option<String>,
    pub publisher: Option<String>,
    /// The records that were decoded.
    pub installers: Vec<InstallerRecord>,
    /// The decoder that the file goes to.
    pub route: Route,
}

/// Whether `result` is what analysing `data` gives for a file with the given
/// extension. An extension that is missing or names no format is refused. A
/// font is recognised by its signature and yields its one record. For every
/// other format the decoder is chosen and its records are still to come.
pub open spec fn analysed(
    data: Seq<u8>,
    file_name: Seq<char>,
    extension: Option<Seq<char>>,
    result: Result<Analyzer, AnalysisError>,
) -> bool {
    match format_of(extension) {
        None => result == Err::<Analyzer, AnalysisError>(AnalysisError::UnsupportedFormat),
        Some(format) => if format.spec_route() == Route::Font {
            if data.len() < 4 {
                result == Err::<Analyzer, AnalysisError>(AnalysisError::TruncatedData)
            } else if !is_font_data(data) {
                result == Err::<Analyzer, AnalysisError>(AnalysisError::InvalidSignature)
            } else {
                result is Ok && result->Ok_0.route == Route::Font && result->Ok_0.installers@
                    == seq![font_record()] && named_only(result->Ok_0, file_name)
            }
        } else {
            result is Ok && result->Ok_0.route == format.spec_route()
                && result->Ok_0.installers@ == Seq::<InstallerRecord>::empty() && named_only(
                result->Ok_0,
                file_name,
            )
        },
    }
}

/// The file name is set, and no copyright, package name or publisher.
pub open spec fn named_only(analyzer: Analyzer, file_name: Seq<char>) -> bool {
    &&& analyzer.file_name@ == file_name
    &&& analyzer.copyright is None
    &&& analyzer.package_name is None
    &&& analyzer.publisher is None
}

/// The view of an optional extension.
pub open spec fn extension_view(extension: Option<String>) -> Option<Seq<char>> {
    match extension {
        Some(s) => Some(s@),
        None => None,
    }
}

impl Analyzer {
    /// Analyses `data` as the format that the extension of `file_name`
    /// names. What the extension of a name is, the platform's path rules say;
    /// a name without a `.` has none and is refused.
    pub fn new(data: &[u8], file_name: &str) -> (result: Result<Self, AnalysisError>)
        ensures
            exists|extension: Option<Seq<char>>|
                {
                    &&& analysed(data@, file_name@, extension, result)
                    &&& extension is Some ==> file_name@.contains('.') && !extension.unwrap().contains(
                        '.',
                    )
                },
            !file_name@.contains('.') ==> result == Err::<Self, AnalysisError>(
                AnalysisError::UnsupportedFormat,
            ),
    {
        let extension = path_extension(file_name);
        let result = Analyzer::for_extension(data, file_name, &extension);
        assert(analysed(data@, file_name@, extension_view(extension), result));
        assert(extension_view(extension) is Some ==> extension_view(extension).unwrap()
            == extension.unwrap()@);
        result
    }

    /// Analyses `data`, the contents of the file `file_name`, as the format
    /// that `extension` names.
    pub fn for_extension(data: &[u8], file_name: &str, extension: &Option<String>) -> (result: Result<
        Self,
        AnalysisError,
    >)
        ensures
            analysed(data@, file_name@, extension_view(*extension), result),
    {
        let format = match extension {
            Some(text) => match FileExtension::parse(text.as_str()) {
                Ok(format) => format,
                Err(e) => {
                    return Err(e);
                },
            },
            None => {
                return Err(AnalysisError::UnsupportedFormat);
            },
        };
        let route = format.route();
        let installers = match route {
            Route::Font => match Font::new(data) {
                Ok(font) => font.installers(),
                Err(e) => {
                    return Err(e);
                },
            },
            _ => Vec::new(),
        };
        Ok(
            Analyzer {
                file_name: file_name.to_owned(),
                copyright: None,
                package_name: None,
                publisher: None,
                installers,
                route,
            },
        )
    }

    /// Takes over what the decoder of a container or an executable found.
    pub fn absorb(&mut self, installers: Vec<InstallerRecord>, labels: Provenance)
        ensures
            final(self).installers@ == installers@,
            final(self).copyright == labels.copyright,
            final(self).package_name == labels.package_name,
            final(self).publisher == labels.publisher,
            final(self).route == old(self).route,
            final(self).file_name == old(self).file_name,
    {
        self.installers = installers;
        self.copyright = labels.copyright;
        self.package_name = labels.package_name;
        self.publisher = labels.publisher;
    }
}

/// Where a file comes from, as its version resource says.
#[derive(Debug)]
pub struct Provenance {
    pub copyright: Option<String>,
    pub package_name: Option<String>,
    pub publisher: Option<String>,
}

/// The value of the first entry of a version resource whose key is `key`.
pub open spec fn first_value(entries: Seq<(String, String)>, key: Seq<char>) -> Option<Seq<char>>
    decreases entries.len(),
{
    if entries.len() == 0 {
        None
    } else if entries[0].0@ == key {
        Some(entries[0].1@)
    } else {
        first_value(entries.skip(1), key)
    }
}

/// The value of the first entry of a version resource whose key is `key`.
pub fn find_value(entries: &[(String, String)], key: &str) -> (value: Option<String>)
    ensures
        extension_view(value) == first_value(entries@, key@),
{
    let mut i: usize = 0;
    assert(entries@.skip(0) =~= entries@);
    while i < entries.len()
        invariant
            i <= entries@.len(),
            first_value(entries@, key@) == first_value(entries@.skip(i as int), key@),
        decreases entries.len() - i,
    {
        assert(entries@.skip(i as int)[0] == entries@[i as int]);
        assert(entries@.skip(i as int).skip(1) =~= entries@.skip(i + 1));
        if same_text(&entries[i].0, key) {
            return Some(entries[i].1.clone());
        }
        i = i + 1;
    }
    None
}

/// Whether a string and a string slice hold the same text.
fn same_text(a: &String, b: &str) -> (same: bool)
    ensures
        same == (a@ == b@),
{
    let owned = b.to_owned();
    *a == owned
}

impl Provenance {
    /// Reads copyright, package name and publisher from the entries of a
    /// version resource: the values of `LegalCopyright`, `ProductName` and
    /// `CompanyName`. A key that is missing leaves its field empty.
    pub fn from_version_info(entries: &[(String, String)]) -> (labels: Self)
        ensures
            extension_view(labels.copyright) == first_value(entries@, "LegalCopyright"@),
            extension_view(labels.package_name) == first_value(entries@, "ProductName"@),
            extension_view(labels.publisher) == first_value(entries@, "CompanyName"@),
    {
        Provenance {
            copyright: find_value(entries, "LegalCopyright"),
            package_name: find_value(entries, "ProductName"),
            publisher: find_value(entries, "CompanyName"),
        }
    }
}

} // verus!
