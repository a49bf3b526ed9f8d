use vstd::prelude::*;

use crate::backend::BackendKind;
use crate::commands::{PackageStatus, PackageStatusView};
use crate::manifest::{
    lemma_push_contains, lemma_remove_all_contains, valid_package_name, Manifest, PackageSetView,
};

verus! {

// ---------------------------------------------------------------------------
// `saya install` without names: bring the system to the manifest
// ---------------------------------------------------------------------------

/// Names that the manifest wants installed and that are not, in order.
pub open spec fn names_to_install(st: Seq<PackageStatusView>) -> Seq<Seq<char>>
    decreases st.len(),
{
    if st.len() == 0 {
        Seq::empty()
    } else {
        let rest = names_to_install(st.drop_last());
        if st.last().desired_present && !st.last().installed {
            rest.push(st.last().name)
        } else {
            rest
        }
    }
}

/// Names that the manifest wants uninstalled and that are installed, in
/// order.
pub open spec fn names_to_uninstall(st: Seq<PackageStatusView>) -> Seq<Seq<char>>
    decreases st.len(),
{
    if st.len() == 0 {
        Seq::empty()
    } else {
        let rest = names_to_uninstall(st.drop_last());
        if !st.last().desired_present && st.last().installed {
            rest.push(st.last().name)
        } else {
            rest
        }
    }
}

pub open spec fn views(st: Seq<PackageStatus>) -> Seq<PackageStatusView> {
    st.map_values(|s: PackageStatus| s@)
}

/// What `saya install` without names does: install these, then uninstall
/// those.
#[derive(Debug, Clone, PartialEq, Eq)]
pub struct ApplyPlan {
    pub install: Vec<String>,
    pub uninstall: Vec<String>,
}

impl ApplyPlan {
    /// Nothing to install and nothing to uninstall.
    pub fn is_empty(&self) -> (b: bool)
        ensures
            b == (self.install.len() == 0 && self.uninstall.len() == 0),
    {
        self.install.len() == 0 && self.uninstall.len() == 0
    }
}

/// From the statuses of the manifest names, the missing present names to
/// install and the installed absent names to uninstall, each in status order.
pub fn plan_apply(statuses: &Vec<PackageStatus>) -> (r: ApplyPlan)
    ensures
        r.install.deep_view() == names_to_install(views(statuses@)),
        r.uninstall.deep_view() == names_to_uninstall(views(statuses@)),
{
    let ghost st = views(statuses@);
    let mut install: Vec<String> = Vec::new();
    let mut uninstall: Vec<String> = Vec::new();
    let mut i: usize = 0;
    while i < statuses.len()
        invariant
            st == views(statuses@),
            i <= statuses.len(),
            install.deep_view() == names_to_install(st.take(i as int)),
            uninstall.deep_view() == names_to_uninstall(st.take(i as int)),
        decreases statuses.len() - i,
    {
        assert(st.take(i + 1).drop_last() =~= st.take(i as int));
        assert(st.take(i + 1).last() == statuses[i as int]@);
        let s = &statuses[i];
        if s.desired_present && !s.installed {
            crate::text::push_copy(&mut install, &s.name);
        }
        if !s.desired_present && s.installed {
            crate::text::push_copy(&mut uninstall, &s.name);
        }
        i = i + 1;
    }
    assert(st.take(i as int) =~= st);
    ApplyPlan { install, uninstall }
}

/// A status wanted present that is not installed.
pub open spec fn missing_status() -> spec_fn(PackageStatusView) -> bool {
    |s: PackageStatusView| s.desired_present && !s.installed
}

/// A status wanted absent that is installed.
pub open spec fn extra_status() -> spec_fn(PackageStatusView) -> bool {
    |s: PackageStatusView| !s.desired_present && s.installed
}

pub open spec fn status_name() -> spec_fn(PackageStatusView) -> Seq<char> {
    |s: PackageStatusView| s.name
}

/// `saya install` without names installs exactly the statuses that are
/// wanted present and not installed, and uninstalls exactly those that are
/// wanted absent and installed: each list holds those statuses' names, all of
/// them, in status order, and nothing else.
pub proof fn law_plan_is_filtered_statuses(st: Seq<PackageStatusView>)
    ensures
        names_to_install(st) == st.filter(missing_status()).map_values(status_name()),
        names_to_uninstall(st) == st.filter(extra_status()).map_values(status_name()),
    decreases st.len(),
{
    let name = status_name();
    reveal(Seq::filter);
    if st.len() > 0 {
        law_plan_is_filtered_statuses(st.drop_last());
        let fm = st.drop_last().filter(missing_status());
        let fe = st.drop_last().filter(extra_status());
        assert(fm.push(st.last()).map_values(name) =~= fm.map_values(name).push(st.last().name));
        assert(fe.push(st.last()).map_values(name) =~= fe.map_values(name).push(st.last().name));
        assert(names_to_install(st) =~= st.filter(missing_status()).map_values(name));
        assert(names_to_uninstall(st) =~= st.filter(extra_status()).map_values(name));
    } else {
        assert(names_to_install(st) =~= st.filter(missing_status()).map_values(name));
        assert(names_to_uninstall(st) =~= st.filter(extra_status()).map_values(name));
    }
}

/// Every status wanted present and not installed has its name in the
/// install list, and every status wanted absent and installed has its name
/// in the uninstall list; a name in either list comes from such a status.
pub proof fn law_plan_covers_every_status(st: Seq<PackageStatusView>, i: int)
    requires
        0 <= i < st.len(),
    ensures
        st[i].desired_present && !st[i].installed ==> names_to_install(st).contains(st[i].name),
        !st[i].desired_present && st[i].installed ==> names_to_uninstall(st).contains(
            st[i].name,
        ),
    decreases st.len(),
{
    if i < st.len() - 1 {
        law_plan_covers_every_status(st.drop_last(), i);
        assert(st.drop_last()[i] == st[i]);
        let a = names_to_install(st.drop_last());
        let b = names_to_uninstall(st.drop_last());
        lemma_push_contains(a, st.last().name, st[i].name);
        lemma_push_contains(b, st.last().name, st[i].name);
    } else {
        let a = names_to_install(st.drop_last());
        let b = names_to_uninstall(st.drop_last());
        lemma_push_contains(a, st.last().name, st[i].name);
        lemma_push_contains(b, st.last().name, st[i].name);
    }
}

proof fn lemma_plan_members(st: Seq<PackageStatusView>, y: Seq<char>)
    ensures
        names_to_install(st).contains(y) ==> exists|i: int|
            0 <= i < st.len() && #[trigger] st[i].name == y && st[i].desired_present
                && !st[i].installed,
        names_to_uninstall(st).contains(y) ==> exists|i: int|
            0 <= i < st.len() && #[trigger] st[i].name == y && !st[i].desired_present
                && st[i].installed,
    decreases st.len(),
{
    if st.len() > 0 {
        let init = st.drop_last();
        lemma_plan_members(init, y);
        lemma_push_contains(names_to_install(init), st.last().name, y);
        lemma_push_contains(names_to_uninstall(init), st.last().name, y);
        if names_to_install(st).contains(y) && names_to_install(init).contains(y) {
            let i = choose|i: int|
                0 <= i < init.len() && #[trigger] init[i].name == y && init[i].desired_present
                    && !init[i].installed;
            assert(st[i] == init[i]);
        }
        if names_to_uninstall(st).contains(y) && names_to_uninstall(init).contains(y) {
            let i = choose|i: int|
                0 <= i < init.len() && #[trigger] init[i].name == y && !init[i].desired_present
                    && init[i].installed;
            assert(st[i] == init[i]);
        }
        assert(st[st.len() - 1] == st.last());
    }
}

/// `saya install` only installs names that the manifest lists as present and
/// that are not installed, and only uninstalls names that it lists as absent
/// and that are installed: a package the manifest does not name is never
/// touched.
pub proof fn law_apply_touches_only_manifest_names(
    st: Seq<PackageStatusView>,
    present: Seq<Seq<char>>,
    absent: Seq<Seq<char>>,
    y: Seq<char>,
)
    requires
        st.len() == present.len() + absent.len(),
        forall|i: int|
            0 <= i < present.len() ==> (#[trigger] st[i]).name == present[i] && st[i].desired_present,
        forall|i: int|
            present.len() <= i < st.len() ==> (#[trigger] st[i]).name == absent[i - present.len()]
                && !st[i].desired_present,
    ensures
        names_to_install(st).contains(y) ==> present.contains(y),
        names_to_uninstall(st).contains(y) ==> absent.contains(y),
        (forall|n: Seq<char>| !(#[trigger] present.contains(n) && absent.contains(n))) ==> !(
        names_to_install(st).contains(y) && names_to_uninstall(st).contains(y)),
{
    lemma_plan_members(st, y);
    if names_to_install(st).contains(y) {
        let i = choose|i: int|
            0 <= i < st.len() && #[trigger] st[i].name == y && st[i].desired_present
                && !st[i].installed;
        assert(present[i] == y);
    }
    if names_to_uninstall(st).contains(y) {
        let i = choose|i: int|
            0 <= i < st.len() && #[trigger] st[i].name == y && !st[i].desired_present
                && st[i].installed;
        assert(absent[i - present.len()] == y);
    }
}

// ---------------------------------------------------------------------------
// `saya install <name...>`: record what was installed
// ---------------------------------------------------------------------------

/// The names of `names` that `present` does not hold, in order.
pub open spec fn new_names(names: Seq<Seq<char>>, present: Seq<Seq<char>>) -> Seq<Seq<char>>
    decreases names.len(),
{
    if names.len() == 0 {
        Seq::empty()
    } else {
        let rest = new_names(names.drop_last(), present);
        if present.contains(names.last()) {
            rest
        } else {
            rest.push(names.last())
        }
    }
}

/// `s` with each of `ns` recorded as present, in order.
pub open spec fn record_all(s: PackageSetView, ns: Seq<Seq<char>>) -> PackageSetView
    decreases ns.len(),
{
    if ns.len() == 0 {
        s
    } else {
        record_all(s, ns.drop_last()).with_present(ns.last())
    }
}

/// The names of `names`, in order, that `want` does not hold or `other`
/// does: those whose recording in `want` changes something.
pub open spec fn unsettled(names: Seq<Seq<char>>, want: Seq<Seq<char>>, other: Seq<Seq<char>>) -> Seq<
    Seq<char>,
>
    decreases names.len(),
{
    if names.len() == 0 {
        Seq::empty()
    } else {
        let rest = unsettled(names.drop_last(), want, other);
        let n = names.last();
        if want.contains(n) && !other.contains(n) {
            rest
        } else {
            rest.push(n)
        }
    }
}

/// After `names` were installed, records as present for `kind` each of
/// them whose record changes: not present yet, or absent (it is taken out
/// of `absent`). Returns those names; with none, the manifest is left as it
/// was.
pub fn record_installed(manifest: &mut Manifest, names: &Vec<String>, kind: BackendKind) -> (added:
    Vec<String>)
    requires
        forall|i: int| 0 <= i < names.len() ==> valid_package_name(#[trigger] names[i]@),
    ensures
        added.deep_view() == unsettled(
            names.deep_view(),
            old(manifest)@.set(kind).present,
            old(manifest)@.set(kind).absent,
        ),
        final(manifest)@ == old(manifest)@.with_set(
            kind,
            record_all(old(manifest)@.set(kind), added.deep_view()),
        ),
        added.len() == 0 ==> final(manifest)@ == old(manifest)@,
{
    let ghost s = manifest@.set(kind);
    let mut added: Vec<String> = Vec::new();
    let mut i: usize = 0;
    while i < names.len()
        invariant
            manifest@.set(kind) == s,
            i <= names.len(),
            added.deep_view() == unsettled(names.deep_view().take(i as int), s.present, s.absent),
            forall|j: int| 0 <= j < names.len() ==> valid_package_name(#[trigger] names[j]@),
            forall|j: int|
                0 <= j < added.deep_view().len() ==> valid_package_name(
                    #[trigger] added.deep_view()[j],
                ),
        decreases names.len() - i,
    {
        assert(names.deep_view().take(i + 1).drop_last() =~= names.deep_view().take(i as int));
        assert(names.deep_view().take(i + 1).last() == names[i as int]@);
        let name = names[i].as_str();
        if !manifest.contains(name, kind) || manifest.is_absent(name, kind) {
            let ghost before = added.deep_view();
            crate::text::push_copy(&mut added, &names[i]);
            assert forall|j: int| 0 <= j < added.deep_view().len() implies valid_package_name(
                #[trigger] added.deep_view()[j],
            ) by {
                if j < before.len() {
                    assert(added.deep_view()[j] == before[j]);
                }
            }
        }
        i = i + 1;
    }
    assert(names.deep_view().take(i as int) =~= names.deep_view());
    assert forall|j: int| 0 <= j < added.len() implies valid_package_name(#[trigger] added[j]@) by {
        assert(added.deep_view()[j] == added[j]@);
    }
    let ghost start = manifest@;
    let mut k: usize = 0;
    while k < added.len()
        invariant
            k <= added.len(),
            forall|j: int| 0 <= j < added.len() ==> valid_package_name(#[trigger] added[j]@),
            manifest@ == start.with_set(
                kind,
                record_all(start.set(kind), added.deep_view().take(k as int)),
            ),
        decreases added.len() - k,
    {
        assert(added.deep_view().take(k + 1).drop_last() =~= added.deep_view().take(k as int));
        assert(added.deep_view().take(k + 1).last() == added[k as int]@);
        manifest.record(added[k].as_str(), kind);
        k = k + 1;
    }
    assert(added.deep_view().take(k as int) =~= added.deep_view());
    proof {
        if added.len() == 0 {
            assert(added.deep_view().len() == 0);
            assert(start.with_set(kind, start.set(kind)) == start);
        }
    }
    added
}

pub proof fn lemma_unsettled_contains(
    names: Seq<Seq<char>>,
    want: Seq<Seq<char>>,
    other: Seq<Seq<char>>,
    y: Seq<char>,
)
    ensures
        unsettled(names, want, other).contains(y) <==> (names.contains(y) && (!want.contains(y)
            || other.contains(y))),
    decreases names.len(),
{
    if names.len() > 0 {
        lemma_unsettled_contains(names.drop_last(), want, other, y);
        assert(names =~= names.drop_last().push(names.last()));
        lemma_push_contains(names.drop_last(), names.last(), y);
        lemma_push_contains(unsettled(names.drop_last(), want, other), names.last(), y);
    }
}

pub proof fn lemma_record_all_contains(s: PackageSetView, ns: Seq<Seq<char>>, y: Seq<char>)
    ensures
        record_all(s, ns).present.contains(y) <==> (s.present.contains(y) || ns.contains(y)),
        record_all(s, ns).absent.contains(y) <==> (s.absent.contains(y) && !ns.contains(y)),
    decreases ns.len(),
{
    if ns.len() > 0 {
        let init = ns.drop_last();
        lemma_record_all_contains(s, init, y);
        assert(ns =~= init.push(ns.last()));
        lemma_push_contains(init, ns.last(), y);
        let r = record_all(s, init);
        lemma_push_contains(r.present, ns.last(), y);
        lemma_remove_all_contains(r.absent, ns.last(), y);
    }
}

/// After `saya install <name...>` records the installed names, each of them
/// is present and not absent, names that were present stay present, and no
/// other name becomes present or absent.
pub proof fn law_install_records_names(s: PackageSetView, names: Seq<Seq<char>>, y: Seq<char>)
    ensures
        ({
            let r = record_all(s, unsettled(names, s.present, s.absent));
            &&& names.contains(y) ==> r.present.contains(y) && !r.absent.contains(y)
            &&& r.present.contains(y) <==> (s.present.contains(y) || names.contains(y))
            &&& r.absent.contains(y) ==> s.absent.contains(y)
        }),
{
    lemma_unsettled_contains(names, s.present, s.absent, y);
    lemma_record_all_contains(s, unsettled(names, s.present, s.absent), y);
}

} // verus!
