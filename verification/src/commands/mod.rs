pub mod import;
pub mod install;
pub mod migrate;
pub mod self_update;
pub mod status;
pub mod uninstall;

use vstd::prelude::*;

use crate::backend::BackendKind;
use crate::manifest::Manifest;
use crate::manifest::ManifestView;
use crate::manifest::PackageSetView;

verus! {

broadcast use vstd::string::group_string_axioms;

/// Where the manifest lives below a home directory.
pub open spec fn manifest_rel_path() -> Seq<char> {
    ".config/saya/packages.toml"@
}

/// `home` joined with `rel` as `Path::join` does: a `/` in between unless
/// `home` is empty or already ends with one.
pub open spec fn joined(home: Seq<char>, rel: Seq<char>) -> Seq<char> {
    if home.len() == 0 || home.last() == '/' {
        home + rel
    } else {
        home + "/"@ + rel
    }
}

/// The manifest path of the user whose home directory is `home`:
/// `~/.config/saya/packages.toml`.
pub fn manifest_path(home: &str) -> (r: String)
    ensures
        r@ == joined(home@, manifest_rel_path()),
{
    let v = crate::text::chars_of(home);
    let mut r = home.to_string();
    if v.len() > 0 && v[v.len() - 1] != '/' {
        r.append("/");
    }
    r.append(".config/saya/packages.toml");
    proof {
        if v.len() > 0 {
            assert(v@.last() == v@[v.len() - 1]);
        }
    }
    r
}

/// One manifest name for the detected backend: whether the manifest wants it
/// installed (`present`) or not (`absent`), and whether it is installed now.
#[derive(Debug, Clone, PartialEq, Eq)]
pub struct PackageStatus {
    pub name: String,
    pub desired_present: bool,
    pub installed: bool,
}

pub struct PackageStatusView {
    pub name: Seq<char>,
    pub desired_present: bool,
    pub installed: bool,
}

impl View for PackageStatus {
    type V = PackageStatusView;

    open spec fn view(&self) -> PackageStatusView {
        PackageStatusView {
            name: self.name@,
            desired_present: self.desired_present,
            installed: self.installed,
        }
    }
}

/// The names whose installation state `kind`'s entries depend on: the
/// present names, then the absent ones.
pub open spec fn status_names_spec(m: ManifestView, kind: BackendKind) -> Seq<Seq<char>> {
    m.set(kind).present + m.set(kind).absent
}

/// The names shown and queried for a backend are that backend's own present
/// names followed by that same backend's own absent names; the other
/// backend's entries play no part.
pub proof fn law_status_names_are_the_backends_own(m: ManifestView, s: PackageSetView)
    ensures
        status_names_spec(m, BackendKind::Apt) == m.apt.present + m.apt.absent,
        status_names_spec(m, BackendKind::Yay) == m.yay.present + m.yay.absent,
        status_names_spec(ManifestView { yay: s, ..m }, BackendKind::Apt) == status_names_spec(
            m,
            BackendKind::Apt,
        ),
        status_names_spec(ManifestView { apt: s, ..m }, BackendKind::Yay) == status_names_spec(
            m,
            BackendKind::Yay,
        ),
{
}

/// The status of the `i`th of `kind`'s names, given the answers `installed`.
pub open spec fn status_at(m: ManifestView, kind: BackendKind, installed: Seq<bool>, i: int) -> PackageStatusView {
    PackageStatusView {
        name: status_names_spec(m, kind)[i],
        desired_present: i < m.set(kind).present.len(),
        installed: installed[i],
    }
}

/// The names to query, in the order that `compute_status` expects the
/// answers.
pub fn status_names(manifest: &Manifest, kind: BackendKind) -> (r: Vec<String>)
    ensures
        r.deep_view() == status_names_spec(manifest@, kind),
{
    let mut r: Vec<String> = Vec::new();
    crate::text::extend_strings(&mut r, manifest.names(kind));
    crate::text::extend_strings(&mut r, manifest.absent_names(kind));
    r
}

/// Pairs each name of `kind`'s entries (present names first, then absent
/// ones) with what it should be and with `installed`, the answers to the
/// queries for `status_names`, in that order.
pub fn compute_status(manifest: &Manifest, kind: BackendKind, installed: &Vec<bool>) -> (r: Vec<
    PackageStatus,
>)
    requires
        installed.len() == status_names_spec(manifest@, kind).len(),
    ensures
        r.len() == installed.len(),
        forall|i: int|
            #![trigger r[i]]
            0 <= i < r.len() ==> r[i]@ == status_at(manifest@, kind, installed@, i),
{
    let names = status_names(manifest, kind);
    let n_present = manifest.names(kind).len();
    let mut r: Vec<PackageStatus> = Vec::new();
    let mut i: usize = 0;
    while i < names.len()
        invariant
            names.deep_view() == status_names_spec(manifest@, kind),
            n_present == manifest@.set(kind).present.len(),
            installed.len() == names.len(),
            i <= names.len(),
            r.len() == i,
            forall|j: int|
                #![trigger r[j]]
                0 <= j < i ==> r[j]@ == status_at(manifest@, kind, installed@, j),
        decreases names.len() - i,
    {
        assert(names.deep_view()[i as int] == names[i as int]@);
        r.push(
            PackageStatus {
                name: names[i].clone(),
                desired_present: i < n_present,
                installed: installed[i],
            },
        );
        i = i + 1;
    }
    r
}

} // verus!
