//! The properties that the installers of a manifest inherit from it, and the
//! rule that fonts and applications do not share a manifest.
use crate::error::AnalysisError;
use crate::record::{InstallerKind, InstallerRecord, NestedInstallerKind, Scope};
use vstd::prelude::*;

verus! {

/// What an installer manifest holds of the properties that its installers
/// inherit.
#[derive(Debug)]
pub struct InstallerManifest {
    pub kind: Option<InstallerKind>,
    pub nested_kind: Option<NestedInstallerKind>,
    pub scope: Option<Scope>,
    pub installers: Vec<InstallerRecord>,
}

/// An installer with the manifest's properties: each of kind, nested kind and
/// scope is the manifest's where the manifest has one, and its own otherwise.
pub open spec fn inherited(
    kind: Option<InstallerKind>,
    nested_kind: Option<NestedInstallerKind>,
    scope: Option<Scope>,
    installer: InstallerRecord,
) -> InstallerRecord {
    InstallerRecord {
        kind: if kind is Some {
            kind
        } else {
            installer.kind
        },
        architecture: installer.architecture,
        nested_kind: if nested_kind is Some {
            nested_kind
        } else {
            installer.nested_kind
        },
        scope: if scope is Some {
            scope
        } else {
            installer.scope
        },
    }
}

impl InstallerManifest {
    /// The installers of the manifest, each with the manifest's properties.
    pub open spec fn effective(&self) -> Seq<InstallerRecord> {
        Seq::new(
            self.installers@.len(),
            |i: int| inherited(self.kind, self.nested_kind, self.scope, self.installers@[i]),
        )
    }

    /// Whether some installer installs a font.
    pub open spec fn has_font(&self) -> bool {
        exists|i: int| 0 <= i < self.effective().len() && (#[trigger] self.effective()[i]).spec_is_font()
    }

    /// Whether some installer installs something other than a font.
    pub open spec fn has_application(&self) -> bool {
        exists|i: int|
            0 <= i < self.effective().len() && !(#[trigger] self.effective()[i]).spec_is_font()
    }
}

/// The installers of a manifest, each with the manifest's properties.
pub fn inherit_manifest_properties(manifest: &InstallerManifest) -> (installers: Vec<InstallerRecord>)
    ensures
        installers@ == manifest.effective(),
{
    let mut installers: Vec<InstallerRecord> = Vec::new();
    let mut i: usize = 0;
    while i < manifest.installers.len()
        invariant
            i <= manifest.installers@.len(),
            installers@.len() == i,
            forall|j: int| 0 <= j < i ==> installers@[j] == manifest.effective()[j],
        decreases manifest.installers.len() - i,
    {
        let mut installer = manifest.installers[i];
        if manifest.kind.is_some() {
            installer.kind = manifest.kind;
        }
        if manifest.nested_kind.is_some() {
            installer.nested_kind = manifest.nested_kind;
        }
        if manifest.scope.is_some() {
            installer.scope = manifest.scope;
        }
        installers.push(installer);
        i = i + 1;
    }
    assert(installers@ =~= manifest.effective());
    installers
}

/// Whether the manifest describes fonts. Fonts and applications in one
/// manifest are refused.
pub fn check_package_type(manifest: &InstallerManifest) -> (result: Result<bool, AnalysisError>)
    ensures
        result == (if manifest.has_font() && manifest.has_application() {
            Err::<bool, AnalysisError>(AnalysisError::MixedPackageTypes)
        } else {
            Ok(manifest.has_font())
        }),
{
    let installers = inherit_manifest_properties(manifest);
    let mut has_font = false;
    let mut has_installer = false;
    let mut i: usize = 0;
    while i < installers.len()
        invariant
            i <= installers@.len(),
            installers@ == manifest.effective(),
            has_font == exists|j: int| 0 <= j < i && (#[trigger] installers@[j]).spec_is_font(),
            has_installer == exists|j: int| 0 <= j < i && !(#[trigger] installers@[j]).spec_is_font(),
        decreases installers.len() - i,
    {
        if installers[i].is_font() {
            has_font = true;
        } else {
            has_installer = true;
        }
        i = i + 1;
    }
    if has_font && has_installer {
        Err(AnalysisError::MixedPackageTypes)
    } else {
        Ok(has_font)
    }
}

} // verus!
