use installer_analysis::analyzer::{find_value, Analyzer, Route, FileExtension, Provenance};
use installer_analysis::error::AnalysisError;
use installer_analysis::font::Font;
use installer_analysis::manifest::{check_package_type, inherit_manifest_properties, InstallerManifest};
use installer_analysis::record::{
    Architecture, InstallerKind, InstallerRecord, NestedInstallerKind, Scope,
};

fn font_record() -> InstallerRecord {
    InstallerRecord {
        kind: Some(InstallerKind::Font),
        architecture: Architecture::Neutral,
        nested_kind: None,
        scope: None,
    }
}

#[test]
fn true_type_signature_is_a_font() {
    let font = Font::new(&[0x00, 0x01, 0x00, 0x00, 0xAA]).unwrap();
    assert_eq!(font.installers(), vec![font_record()]);
}

#[test]
fn open_type_signature_is_a_font() {
    assert_eq!(Font::new(b"OTTO").unwrap().installers(), vec![font_record()]);
}

#[test]
fn collection_signature_is_a_font() {
    assert_eq!(Font::new(b"ttcf\x00\x02").unwrap().installers(), vec![font_record()]);
}

#[test]
fn other_four_bytes_are_no_font() {
    for data in [&b"OTTo"[..], b"\x00\x01\x00\x01", b"ttfc", b"MZ\x90\x00", b"\x01\x00\x00\x00", b"wOFF"] {
        assert_eq!(Font::new(data), Err(AnalysisError::InvalidSignature));
    }
}

#[test]
fn fewer_than_four_bytes_are_truncated() {
    assert_eq!(Font::new(b"OTT"), Err(AnalysisError::TruncatedData));
    assert_eq!(Font::new(b""), Err(AnalysisError::TruncatedData));
}

#[test]
fn extensions_in_any_case() {
    assert_eq!(FileExtension::parse("msi"), Ok(FileExtension::Msi));
    assert_eq!(FileExtension::parse("MSI"), Ok(FileExtension::Msi));
    assert_eq!(FileExtension::parse("MsIx"), Ok(FileExtension::Msix));
    assert_eq!(FileExtension::parse("appx"), Ok(FileExtension::Appx));
    assert_eq!(FileExtension::parse("MSIXBundle"), Ok(FileExtension::MsixBundle));
    assert_eq!(FileExtension::parse("appxbundle"), Ok(FileExtension::AppxBundle));
    assert_eq!(FileExtension::parse("Zip"), Ok(FileExtension::Zip));
    assert_eq!(FileExtension::parse("EXE"), Ok(FileExtension::Exe));
    assert_eq!(FileExtension::parse("fnt"), Ok(FileExtension::Fnt));
    assert_eq!(FileExtension::parse("otc"), Ok(FileExtension::Otc));
    assert_eq!(FileExtension::parse("OTF"), Ok(FileExtension::Otf));
    assert_eq!(FileExtension::parse("ttc"), Ok(FileExtension::Ttc));
    assert_eq!(FileExtension::parse("TtF"), Ok(FileExtension::Ttf));
}

#[test]
fn unknown_extensions() {
    for ext in ["", "ms", "msi ", "exe2", "tar", "m\u{17f}i", "\u{212a}", "woff"] {
        assert_eq!(FileExtension::parse(ext), Err(AnalysisError::UnsupportedFormat), "{ext}");
    }
}

#[test]
fn decoders_by_extension() {
    assert_eq!(FileExtension::Appx.route(), Route::Msix);
    assert_eq!(FileExtension::Msix.route(), Route::Msix);
    assert_eq!(FileExtension::AppxBundle.route(), Route::MsixBundle);
    assert_eq!(FileExtension::Msi.route(), Route::Msi);
    assert_eq!(FileExtension::Zip.route(), Route::Zip);
    assert_eq!(FileExtension::Exe.route(), Route::Exe);
    for ext in [FileExtension::Fnt, FileExtension::Otc, FileExtension::Otf, FileExtension::Ttc, FileExtension::Ttf] {
        assert_eq!(ext.route(), Route::Font);
    }
}

#[test]
fn analyzer_on_a_font_file() {
    let a = Analyzer::new(b"OTTO....", "fonts/Inter.OTF").unwrap();
    assert_eq!(a.route, Route::Font);
    assert_eq!(a.installers, vec![font_record()]);
    assert_eq!(a.file_name, "fonts/Inter.OTF");
    assert!(a.copyright.is_none() && a.package_name.is_none() && a.publisher.is_none());
    assert_eq!(Analyzer::new(b"MZ\x90\x00", "Inter.ttf").err(), Some(AnalysisError::InvalidSignature));
    assert_eq!(Analyzer::new(b"MZ", "Inter.ttf").err(), Some(AnalysisError::TruncatedData));
}

#[test]
fn analyzer_refuses_unknown_or_missing_extension() {
    assert_eq!(Analyzer::new(b"OTTO", "setup.bin").err(), Some(AnalysisError::UnsupportedFormat));
    assert_eq!(Analyzer::new(b"OTTO", "setup").err(), Some(AnalysisError::UnsupportedFormat));
    assert_eq!(Analyzer::new(b"OTTO", ".exe").err(), Some(AnalysisError::UnsupportedFormat));
    assert_eq!(Analyzer::new(b"OTTO", "").err(), Some(AnalysisError::UnsupportedFormat));
    assert_eq!(
        Analyzer::for_extension(b"OTTO", "font", &None).err(),
        Some(AnalysisError::UnsupportedFormat)
    );
}

#[test]
fn analyzer_chooses_the_decoder_of_a_container() {
    let mut a = Analyzer::new(b"PK\x03\x04", "bundle.tar.ZIP").unwrap();
    assert_eq!(a.route, Route::Zip);
    assert!(a.installers.is_empty());
    let found = vec![InstallerRecord::new(InstallerKind::Zip, Architecture::X64)];
    a.absorb(
        found.clone(),
        Provenance { copyright: Some("(c)".to_string()), package_name: None, publisher: None },
    );
    assert_eq!(a.installers, found);
    assert_eq!(a.copyright.as_deref(), Some("(c)"));
    assert_eq!(a.route, Route::Zip);
    let a = Analyzer::for_extension(b"", "setup", &Some("Exe".to_string())).unwrap();
    assert_eq!(a.route, Route::Exe);
    assert_eq!(a.file_name, "setup");
}

#[test]
fn provenance_from_version_info() {
    let entries = vec![
        ("CompanyName".to_string(), "Acme".to_string()),
        ("FileDescription".to_string(), "Setup".to_string()),
        ("LegalCopyright".to_string(), "(c) Acme".to_string()),
        ("CompanyName".to_string(), "Other".to_string()),
    ];
    let p = Provenance::from_version_info(&entries);
    assert_eq!(p.publisher.as_deref(), Some("Acme"));
    assert_eq!(p.copyright.as_deref(), Some("(c) Acme"));
    assert_eq!(p.package_name, None);
    assert_eq!(find_value(&entries, "FileDescription").as_deref(), Some("Setup"));
    assert_eq!(find_value(&entries, "companyname"), None);
    assert_eq!(find_value(&[], "CompanyName"), None);
}

fn record(kind: Option<InstallerKind>, nested: Option<NestedInstallerKind>) -> InstallerRecord {
    InstallerRecord { kind, architecture: Architecture::X64, nested_kind: nested, scope: None }
}

#[test]
fn manifest_properties_are_inherited() {
    let manifest = InstallerManifest {
        kind: Some(InstallerKind::Zip),
        nested_kind: None,
        scope: Some(Scope::Machine),
        installers: vec![
            record(Some(InstallerKind::Exe), Some(NestedInstallerKind::Inno)),
            InstallerRecord { scope: Some(Scope::User), ..record(None, None) },
        ],
    };
    let out = inherit_manifest_properties(&manifest);
    assert_eq!(out.len(), 2);
    assert_eq!(out[0].kind, Some(InstallerKind::Zip));
    assert_eq!(out[0].nested_kind, Some(NestedInstallerKind::Inno));
    assert_eq!(out[0].scope, Some(Scope::Machine));
    assert_eq!(out[1].kind, Some(InstallerKind::Zip));
    assert_eq!(out[1].nested_kind, None);
    assert_eq!(out[1].scope, Some(Scope::Machine));
    assert_eq!(out[1].architecture, Architecture::X64);
}

fn manifest(kind: Option<InstallerKind>, installers: Vec<InstallerRecord>) -> InstallerManifest {
    InstallerManifest { kind, nested_kind: None, scope: None, installers }
}

#[test]
fn package_type_of_fonts_and_applications() {
    let font = record(Some(InstallerKind::Font), None);
    let nested_font = record(Some(InstallerKind::Zip), Some(NestedInstallerKind::Font));
    let exe = record(Some(InstallerKind::Exe), None);
    assert_eq!(check_package_type(&manifest(None, vec![font, nested_font])), Ok(true));
    assert_eq!(check_package_type(&manifest(None, vec![exe, exe])), Ok(false));
    assert_eq!(check_package_type(&manifest(None, vec![])), Ok(false));
    assert_eq!(
        check_package_type(&manifest(None, vec![font, exe])),
        Err(AnalysisError::MixedPackageTypes)
    );
    assert_eq!(
        check_package_type(&manifest(None, vec![exe, nested_font])),
        Err(AnalysisError::MixedPackageTypes)
    );
    assert_eq!(check_package_type(&manifest(Some(InstallerKind::Font), vec![exe, font])), Ok(true));
    assert_eq!(check_package_type(&manifest(Some(InstallerKind::Msi), vec![font])), Ok(false));
    assert!(font.is_font() && nested_font.is_font() && !exe.is_font());
}
