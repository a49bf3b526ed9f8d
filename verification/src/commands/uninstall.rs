use vstd::prelude::*;

use crate::backend::BackendKind;
use crate::commands::install::{
    lemma_record_all_contains, lemma_unsettled_contains, record_all, unsettled,
};
use crate::manifest::{lemma_push_contains, lemma_remove_all_contains, Manifest, PackageSetView};

verus! {

/// `s` with each of `ns` recorded as absent, in order.
pub open spec fn absent_all(s: PackageSetView, ns: Seq<Seq<char>>) -> PackageSetView
    decreases ns.len(),
{
    if ns.len() == 0 {
        s
    } else {
        absent_all(s, ns.drop_last()).with_absent(ns.last())
    }
}

/// After `names` were uninstalled, records as absent for `kind` each of
/// them whose record changes: not absent yet, or present (it is taken out of
/// `present`). Returns those names; with none, the manifest is left as it
/// was.
pub fn record_uninstalled(manifest: &mut Manifest, names: &Vec<String>, kind: BackendKind) -> (newly_absent:
    Vec<String>)
    ensures
        newly_absent.deep_view() == unsettled(
            names.deep_view(),
            old(manifest)@.set(kind).absent,
            old(manifest)@.set(kind).present,
        ),
        final(manifest)@ == old(manifest)@.with_set(
            kind,
            absent_all(old(manifest)@.set(kind), newly_absent.deep_view()),
        ),
        newly_absent.len() == 0 ==> final(manifest)@ == old(manifest)@,
{
    let ghost s = manifest@.set(kind);
    let mut newly: Vec<String> = Vec::new();
    let mut i: usize = 0;
    while i < names.len()
        invariant
            manifest@.set(kind) == s,
            i <= names.len(),
            newly.deep_view() == unsettled(names.deep_view().take(i as int), s.absent, s.present),
        decreases names.len() - i,
    {
        assert(names.deep_view().take(i + 1).drop_last() =~= names.deep_view().take(i as int));
        assert(names.deep_view().take(i + 1).last() == names[i as int]@);
        let name = names[i].as_str();
        if !manifest.is_absent(name, kind) || manifest.contains(name, kind) {
            crate::text::push_copy(&mut newly, &names[i]);
        }
        i = i + 1;
    }
    assert(names.deep_view().take(i as int) =~= names.deep_view());
    let ghost start = manifest@;
    let mut k: usize = 0;
    while k < newly.len()
        invariant
            k <= newly.len(),
            manifest@ == start.with_set(
                kind,
                absent_all(start.set(kind), newly.deep_view().take(k as int)),
            ),
        decreases newly.len() - k,
    {
        assert(newly.deep_view().take(k + 1).drop_last() =~= newly.deep_view().take(k as int));
        assert(newly.deep_view().take(k + 1).last() == newly[k as int]@);
        manifest.record_absent(newly[k].as_str(), kind);
        k = k + 1;
    }
    assert(newly.deep_view().take(k as int) =~= newly.deep_view());
    proof {
        if newly.len() == 0 {
            assert(newly.deep_view().len() == 0);
            assert(start.with_set(kind, start.set(kind)) == start);
        }
    }
    newly
}

pub proof fn lemma_absent_all_contains(s: PackageSetView, ns: Seq<Seq<char>>, y: Seq<char>)
    ensures
        absent_all(s, ns).absent.contains(y) <==> (s.absent.contains(y) || ns.contains(y)),
        absent_all(s, ns).present.contains(y) <==> (s.present.contains(y) && !ns.contains(y)),
    decreases ns.len(),
{
    if ns.len() > 0 {
        let init = ns.drop_last();
        lemma_absent_all_contains(s, init, y);
        assert(ns =~= init.push(ns.last()));
        lemma_push_contains(init, ns.last(), y);
        let r = absent_all(s, init);
        lemma_push_contains(r.absent, ns.last(), y);
        lemma_remove_all_contains(r.present, ns.last(), y);
    }
}

/// After `saya uninstall <name...>` records the uninstalled names, each of
/// them is absent and not present, whether or not the manifest named it
/// before, and no other name changes its intent.
pub proof fn law_uninstall_records_names(s: PackageSetView, names: Seq<Seq<char>>, y: Seq<char>)
    ensures
        ({
            let r = absent_all(s, unsettled(names, s.absent, s.present));
            &&& names.contains(y) ==> r.absent.contains(y) && !r.present.contains(y)
            &&& !names.contains(y) ==> (r.present.contains(y) == s.present.contains(y)
                && r.absent.contains(y) == s.absent.contains(y))
        }),
{
    lemma_unsettled_contains(names, s.absent, s.present, y);
    lemma_absent_all_contains(s, unsettled(names, s.absent, s.present), y);
}

/// Uninstalling names that were just installed leaves each of them absent
/// and not present; installing names that were just uninstalled leaves each
/// of them present and not absent.
pub proof fn law_install_uninstall_round_trip(s: PackageSetView, names: Seq<Seq<char>>, y: Seq<char>)
    requires
        names.contains(y),
    ensures
        ({
            let after_install = record_all(s, unsettled(names, s.present, s.absent));
            let r = absent_all(
                after_install,
                unsettled(names, after_install.absent, after_install.present),
            );
            r.absent.contains(y) && !r.present.contains(y)
        }),
        ({
            let after_uninstall = absent_all(s, unsettled(names, s.absent, s.present));
            let r = record_all(
                after_uninstall,
                unsettled(names, after_uninstall.present, after_uninstall.absent),
            );
            r.present.contains(y) && !r.absent.contains(y)
        }),
{
    let after_install = record_all(s, unsettled(names, s.present, s.absent));
    law_uninstall_records_names(after_install, names, y);
    let after_uninstall = absent_all(s, unsettled(names, s.absent, s.present));
    crate::commands::install::law_install_records_names(after_uninstall, names, y);
}

} // verus!
