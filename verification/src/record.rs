//! Installer records: what the analysis of a package yields.
use vstd::prelude::*;

verus! {

/// The kind of an installer.
#[derive(Debug, Clone, Copy, PartialEq, Eq, Structural)]
pub enum InstallerKind {
    Msix,
    Msi,
    Appx,
    Exe,
    Inno,
    Nullsoft,
    Wix,
    Burn,
    Pwa,
    Zip,
    Portable,
    Font,
}

/// The kind of an installer that lies inside an archive.
#[derive(Debug, Clone, Copy, PartialEq, Eq, Structural)]
pub enum NestedInstallerKind {
    Msix,
    Msi,
    Appx,
    Exe,
    Inno,
    Nullsoft,
    Wix,
    Burn,
    Portable,
    Font,
}

/// The architecture that an installer targets.
#[derive(Debug, Clone, Copy, PartialEq, Eq, Structural)]
pub enum Architecture {
    X86,
    X64,
    Arm,
    Arm64,
    Neutral,
}

/// Whether an installer installs for one user or for the machine.
#[derive(Debug, Clone, Copy, PartialEq, Eq, Structural)]
pub enum Scope {
    User,
    Machine,
}

/// One deployable unit inside a package.
#[derive(Debug, Clone, Copy, PartialEq, Eq, Structural)]
pub struct InstallerRecord {
    pub kind: Option<InstallerKind>,
    pub architecture: Architecture,
    pub nested_kind: Option<NestedInstallerKind>,
    pub scope: Option<Scope>,
}

impl InstallerRecord {
    /// A record of the given kind and architecture, with nothing nested.
    pub fn new(kind: InstallerKind, architecture: Architecture) -> (record: Self)
        ensures
            record == (InstallerRecord {
                kind: Some(kind),
                architecture,
                nested_kind: None,
                scope: None,
            }),
    {
        InstallerRecord { kind: Some(kind), architecture, nested_kind: None, scope: None }
    }

    /// Whether the record installs a font, itself or nested.
    pub open spec fn spec_is_font(&self) -> bool {
        self.kind == Some(InstallerKind::Font) || self.nested_kind == Some(
            NestedInstallerKind::Font,
        )
    }

    /// Whether the record installs a font, itself or nested.
    pub fn is_font(&self) -> (result: bool)
        ensures
            result == self.spec_is_font(),
    {
        let by_kind = match self.kind {
            Some(InstallerKind::Font) => true,
            _ => false,
        };
        let by_nested = match self.nested_kind {
            Some(NestedInstallerKind::Font) => true,
            _ => false,
        };
        by_kind || by_nested
    }
}

} // verus!
