use vstd::prelude::*;

use crate::manifest::{
    Manifest, ManifestError, PackageSet, PackageSetView, ManifestView, CURRENT_SCHEMA_VERSION,
};

use crate::text::{decimal_string, decimal_text};

verus! {

broadcast use vstd::string::group_string_axioms;

/// The schema that `saya migrate` reads: the one before the current one.
pub const PREVIOUS_SCHEMA_VERSION: u32 = 4;

/// A manifest in the previous schema: one flat list of names per backend.
#[derive(Debug, Clone, PartialEq, Eq)]
pub struct PreviousManifest {
    pub schema_version: u32,
    pub apt: Vec<String>,
    pub yay: Vec<String>,
}

/// Why `saya migrate` refuses a manifest. It leaves the file as it was.
#[derive(Debug, Clone, PartialEq, Eq)]
pub enum MigrateError {
    /// The file is not in the previous schema.
    NotPreviousSchema { found: u32, expected: u32 },
    /// The migrated manifest would not be valid.
    Invalid(ManifestError),
}

impl MigrateError {
    /// The text that explains this refusal.
    pub open spec fn message_text(self) -> Seq<char> {
        match self {
            MigrateError::NotPreviousSchema { found, expected } => "migrate reads manifest schema_version "@
                + decimal_text(expected as nat) + "; found "@ + decimal_text(found as nat),
            MigrateError::Invalid(e) => e.message_text(),
        }
    }

    /// The message that explains this refusal.
    pub fn message(&self) -> (r: String)
        ensures
            r@ == self.message_text(),
    {
        match self {
            MigrateError::NotPreviousSchema { found, expected } => {
                let mut r = "migrate reads manifest schema_version ".to_string();
                r.append(decimal_string(*expected).as_str());
                r.append("; found ");
                r.append(decimal_string(*found).as_str());
                r
            },
            MigrateError::Invalid(e) => e.message(),
        }
    }
}

/// The current-schema manifest that a previous-schema one becomes: each
/// backend's names, in order, as its present names, and nothing absent.
pub open spec fn migrated(apt: Seq<Seq<char>>, yay: Seq<Seq<char>>) -> ManifestView {
    ManifestView {
        schema_version: CURRENT_SCHEMA_VERSION,
        apt: PackageSetView { present: apt, absent: Seq::empty() },
        yay: PackageSetView { present: yay, absent: Seq::empty() },
    }
}

/// Migrates a manifest from the previous schema to the current one. Only
/// the previous schema is accepted; the result must pass validation.
pub fn migrate_previous(prev: PreviousManifest) -> (r: Result<Manifest, MigrateError>)
    ensures
        prev.schema_version != PREVIOUS_SCHEMA_VERSION <==> r matches Err(
            MigrateError::NotPreviousSchema { .. },
        ),
        r matches Err(MigrateError::NotPreviousSchema { found, expected }) ==> found
            == prev.schema_version && expected == PREVIOUS_SCHEMA_VERSION,
        prev.schema_version == PREVIOUS_SCHEMA_VERSION ==> {
            let m = migrated(prev.apt.deep_view(), prev.yay.deep_view());
            &&& r is Ok <==> m.well_formed()
            &&& r matches Ok(out) ==> out@ == m
            &&& r matches Err(MigrateError::Invalid(e)) ==> m.refuses_with(e)
        },
{
    if prev.schema_version != PREVIOUS_SCHEMA_VERSION {
        return Err(
            MigrateError::NotPreviousSchema {
                found: prev.schema_version,
                expected: PREVIOUS_SCHEMA_VERSION,
            },
        );
    }
    let manifest = Manifest {
        schema_version: CURRENT_SCHEMA_VERSION,
        apt: PackageSet { present: prev.apt, absent: Vec::new() },
        yay: PackageSet { present: prev.yay, absent: Vec::new() },
    };
    assert(manifest.apt.absent.deep_view() =~= Seq::<Seq<char>>::empty());
    assert(manifest.yay.absent.deep_view() =~= Seq::<Seq<char>>::empty());
    assert(manifest@ == migrated(prev.apt.deep_view(), prev.yay.deep_view()));
    match manifest.validate() {
        Ok(()) => Ok(manifest),
        Err(e) => Err(MigrateError::Invalid(e)),
    }
}

} // verus!
