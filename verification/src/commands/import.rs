use vstd::prelude::*;

use crate::backend::BackendKind;
use crate::cli::ImportArgs;
use crate::commands::install::new_names;
use crate::manifest::{
    first_invalid, package_name_error, valid_package_name, validate_package_name, Manifest,
    PackageNameError, PackageSetView,
};
use crate::text::{str_debug, str_debug_string, nonblank_lines, nonblank_lines_of, trim, words, words_of};

verus! {

broadcast use vstd::string::group_string_axioms;

/// Why `saya import` stops.
#[derive(Debug, Clone, PartialEq, Eq)]
pub enum ImportError {
    /// `--manual` was not given; it is the only source of candidates.
    ManualRequired,
    /// A line left in the editor is not a valid package name.
    InvalidEditedName { line: String, reason: PackageNameError },
}

impl ImportError {
    /// The text that explains this refusal.
    pub open spec fn message_text(self) -> Seq<char> {
        match self {
            ImportError::ManualRequired => "import currently only supports --manual"@,
            ImportError::InvalidEditedName { line, reason } => "invalid package name from editor: "@
                + str_debug(line@) + ": "@ + reason.message_text(),
        }
    }

    /// The message that explains this refusal; the line is quoted as `{:?}`
    /// writes it and followed by `: ` and the reason.
    pub fn message(&self) -> (r: String)
        ensures
            r@ == self.message_text(),
    {
        match self {
            ImportError::ManualRequired => "import currently only supports --manual".to_string(),
            ImportError::InvalidEditedName { line, reason } => {
                let mut r = "invalid package name from editor: ".to_string();
                r.append(str_debug_string(line.as_str()).as_str());
                r.append(": ");
                r.append(reason.message().as_str());
                r
            },
        }
    }
}

/// `saya import` needs `--manual`.
pub fn check_import_args(args: &ImportArgs) -> (r: Result<(), ImportError>)
    ensures
        r is Ok <==> args.manual,
        r is Err ==> r == Err::<(), ImportError>(ImportError::ManualRequired),
{
    if args.manual {
        Ok(())
    } else {
        Err(ImportError::ManualRequired)
    }
}

/// The names of `listed` that `s` holds neither as present nor as absent,
/// in order.
pub open spec fn unmanaged(listed: Seq<Seq<char>>, s: PackageSetView) -> Seq<Seq<char>>
    decreases listed.len(),
{
    if listed.len() == 0 {
        Seq::empty()
    } else {
        let rest = unmanaged(listed.drop_last(), s);
        let n = listed.last();
        if s.present.contains(n) || s.absent.contains(n) {
            rest
        } else {
            rest.push(n)
        }
    }
}

/// The manually installed packages that the manifest does not manage for
/// `kind`: named neither as present nor as absent.
pub fn import_candidates(listed: &Vec<String>, manifest: &Manifest, kind: BackendKind) -> (r: Vec<
    String,
>)
    ensures
        r.deep_view() == unmanaged(listed.deep_view(), manifest@.set(kind)),
{
    let ghost s = manifest@.set(kind);
    let mut r: Vec<String> = Vec::new();
    let mut i: usize = 0;
    while i < listed.len()
        invariant
            s == manifest@.set(kind),
            i <= listed.len(),
            r.deep_view() == unmanaged(listed.deep_view().take(i as int), s),
        decreases listed.len() - i,
    {
        assert(listed.deep_view().take(i + 1).drop_last() =~= listed.deep_view().take(i as int));
        assert(listed.deep_view().take(i + 1).last() == listed[i as int]@);
        let name = listed[i].as_str();
        if !manifest.contains(name, kind) && !manifest.is_absent(name, kind) {
            crate::text::push_copy(&mut r, &listed[i]);
        }
        i = i + 1;
    }
    assert(listed.deep_view().take(i as int) =~= listed.deep_view());
    r
}

/// The names left in the editor: the trimmed non-blank lines, each of which
/// must be a valid package name; the first one that is not is reported.
pub fn parse_edited_candidates(text: &str) -> (r: Result<Vec<String>, ImportError>)
    ensures
        match first_invalid(nonblank_lines(text@)) {
            None => r matches Ok(v) && v.deep_view() == nonblank_lines(text@),
            Some(l) => r matches Err(ImportError::InvalidEditedName { line, reason }) && line@ == l
                && package_name_error(l) == Some(reason),
        },
{
    let ls = nonblank_lines_of(text);
    let mut i: usize = 0;
    assert(ls.deep_view().skip(0) =~= ls.deep_view());
    while i < ls.len()
        invariant
            ls.deep_view() == nonblank_lines(text@),
            i <= ls.len(),
            first_invalid(ls.deep_view()) == first_invalid(ls.deep_view().skip(i as int)),
        decreases ls.len() - i,
    {
        assert(ls.deep_view().skip(i as int).drop_first() =~= ls.deep_view().skip(i + 1));
        assert(ls.deep_view().skip(i as int)[0] == ls[i as int]@);
        match validate_package_name(ls[i].as_str()) {
            Ok(()) => {},
            Err(reason) => {
                assert(first_invalid(ls.deep_view().skip(i as int)) == Some(ls[i as int]@));
                return Err(ImportError::InvalidEditedName { line: ls[i].clone(), reason });
            },
        }
        i = i + 1;
    }
    assert(ls.deep_view().skip(i as int).len() == 0);
    Ok(ls)
}

/// `s` with each of `ns` that is not present at its turn recorded as
/// present, in order.
pub open spec fn import_all(s: PackageSetView, ns: Seq<Seq<char>>) -> PackageSetView
    decreases ns.len(),
{
    if ns.len() == 0 {
        s
    } else {
        let t = import_all(s, ns.drop_last());
        if t.present.contains(ns.last()) {
            t
        } else {
            t.with_present(ns.last())
        }
    }
}

/// Records as present for `kind` each selected name that is not present
/// yet. Returns whether the manifest changed, which is exactly when some
/// selected name was not present.
pub fn import_selected(manifest: &mut Manifest, selected: &Vec<String>, kind: BackendKind) -> (changed:
    bool)
    requires
        forall|i: int| 0 <= i < selected.len() ==> valid_package_name(#[trigger] selected[i]@),
    ensures
        final(manifest)@ == old(manifest)@.with_set(
            kind,
            import_all(old(manifest)@.set(kind), selected.deep_view()),
        ),
        changed == (new_names(selected.deep_view(), old(manifest)@.set(kind).present).len() > 0),
{
    let ghost start = manifest@;
    let mut changed = false;
    let mut i: usize = 0;
    while i < selected.len()
        invariant
            i <= selected.len(),
            forall|j: int| 0 <= j < selected.len() ==> valid_package_name(#[trigger] selected[j]@),
            manifest@ == start.with_set(
                kind,
                import_all(start.set(kind), selected.deep_view().take(i as int)),
            ),
            changed == (new_names(selected.deep_view().take(i as int), start.set(kind).present).len()
                > 0),
        decreases selected.len() - i,
    {
        let ghost prefix = selected.deep_view().take(i as int);
        assert(selected.deep_view().take(i + 1).drop_last() =~= prefix);
        assert(selected.deep_view().take(i + 1).last() == selected[i as int]@);
        proof {
            lemma_import_all_present(start.set(kind), prefix, selected[i as int]@);
        }
        let name = selected[i].as_str();
        if !manifest.contains(name, kind) {
            manifest.record(name, kind);
            changed = true;
        }
        i = i + 1;
    }
    assert(selected.deep_view().take(i as int) =~= selected.deep_view());
    changed
}

/// A name is present after importing exactly when it was present before or
/// is among the imported names; and a name that was not present before is
/// not among the new names only if it was imported already.
pub proof fn lemma_import_all_present(s: PackageSetView, ns: Seq<Seq<char>>, y: Seq<char>)
    ensures
        import_all(s, ns).present.contains(y) <==> (s.present.contains(y) || ns.contains(y)),
        (new_names(ns, s.present).len() > 0) <==> exists|i: int|
            0 <= i < ns.len() && !s.present.contains(#[trigger] ns[i]),
    decreases ns.len(),
{
    if ns.len() > 0 {
        let init = ns.drop_last();
        lemma_import_all_present(s, init, y);
        lemma_import_all_present(s, init, ns.last());
        assert(ns =~= init.push(ns.last()));
        crate::manifest::lemma_push_contains(init, ns.last(), y);
        let t = import_all(s, init);
        crate::manifest::lemma_push_contains(t.present, ns.last(), y);
        if exists|i: int| 0 <= i < ns.len() && !s.present.contains(#[trigger] ns[i]) {
            let i = choose|i: int| 0 <= i < ns.len() && !s.present.contains(#[trigger] ns[i]);
            if i < init.len() {
                assert(init[i] == ns[i]);
            }
        }
        if exists|i: int| 0 <= i < init.len() && !s.present.contains(#[trigger] init[i]) {
            let i = choose|i: int| 0 <= i < init.len() && !s.present.contains(#[trigger] init[i]);
            assert(ns[i] == init[i]);
        }
        assert(ns[ns.len() - 1] == ns.last());
    }
}

/// The lines `candidates` joined by newlines.
pub open spec fn joined_lines(ns: Seq<Seq<char>>) -> Seq<char>
    decreases ns.len(),
{
    if ns.len() == 0 {
        Seq::empty()
    } else if ns.len() == 1 {
        ns[0]
    } else {
        joined_lines(ns.drop_last()) + "\n"@ + ns.last()
    }
}

/// The text written for the editor: the candidates, one per line, ending
/// with a newline.
pub fn candidates_file_text(candidates: &Vec<String>) -> (r: String)
    ensures
        r@ == joined_lines(candidates.deep_view()) + "\n"@,
{
    let mut r = String::new();
    let mut i: usize = 0;
    while i < candidates.len()
        invariant
            i <= candidates.len(),
            r@ == joined_lines(candidates.deep_view().take(i as int)),
        decreases candidates.len() - i,
    {
        let ghost prefix = candidates.deep_view().take(i as int);
        assert(candidates.deep_view().take(i + 1).drop_last() =~= prefix);
        assert(candidates.deep_view().take(i + 1).last() == candidates[i as int]@);
        if i > 0 {
            r.append("\n");
        } else {
            assert(r@ =~= Seq::<char>::empty());
        }
        r.append(candidates[i].as_str());
        proof {
            if i == 0 {
                assert(candidates.deep_view().take(1)[0] == candidates[0]@);
                assert(r@ =~= candidates[0]@);
            }
        }
        i = i + 1;
    }
    assert(candidates.deep_view().take(i as int) =~= candidates.deep_view());
    r.append("\n");
    r
}

/// The editor command: `VISUAL`, else `EDITOR`, each only when it is not
/// blank, else `vi`.
pub open spec fn editor_spec(visual: Option<Seq<char>>, editor: Option<Seq<char>>) -> Seq<char> {
    if visual matches Some(v) && trim(v).len() > 0 {
        visual->0
    } else if editor matches Some(e) && trim(e).len() > 0 {
        editor->0
    } else {
        "vi"@
    }
}

pub open spec fn opt_view(o: Option<String>) -> Option<Seq<char>> {
    match o {
        Some(s) => Some(s@),
        None => None,
    }
}

/// Chooses the editor command from the values of `VISUAL` and `EDITOR`.
pub fn editor_command_from(visual: Option<String>, editor: Option<String>) -> (r: String)
    ensures
        r@ == editor_spec(opt_view(visual), opt_view(editor)),
{
    if let Some(v) = visual {
        if crate::text::trim_str(v.as_str()).as_str().unicode_len() > 0 {
            return v;
        }
    }
    if let Some(e) = editor {
        if crate::text::trim_str(e.as_str()).as_str().unicode_len() > 0 {
            return e;
        }
    }
    "vi".to_string()
}

/// The program of an editor command, `vi` when the command has no words.
pub open spec fn editor_program_spec(editor: Seq<char>) -> Seq<char> {
    if words(editor).len() > 0 {
        words(editor)[0]
    } else {
        "vi"@
    }
}

/// The arguments of an editor command: its words after the first.
pub open spec fn editor_args_spec(editor: Seq<char>) -> Seq<Seq<char>> {
    if words(editor).len() > 0 {
        words(editor).drop_first()
    } else {
        Seq::empty()
    }
}

/// Splits an editor command such as `code --wait` into the program and its
/// arguments, at whitespace.
pub fn split_editor_command(editor: &str) -> (r: (String, Vec<String>))
    ensures
        r.0@ == editor_program_spec(editor@),
        r.1.deep_view() == editor_args_spec(editor@),
{
    let ws = words_of(editor);
    if ws.len() == 0 {
        return ("vi".to_string(), Vec::new());
    }
    let mut args: Vec<String> = Vec::new();
    let mut i: usize = 1;
    while i < ws.len()
        invariant
            1 <= i <= ws.len(),
            args.deep_view() == ws.deep_view().subrange(1, i as int),
        decreases ws.len() - i,
    {
        crate::text::push_copy(&mut args, &ws[i]);
        assert(ws.deep_view().subrange(1, i + 1) =~= ws.deep_view().subrange(1, i as int).push(
            ws[i as int]@,
        ));
        i = i + 1;
    }
    assert(ws.deep_view().subrange(1, i as int) =~= ws.deep_view().drop_first());
    assert(ws.deep_view()[0] == ws[0]@);
    (ws[0].clone(), args)
}

} // verus!
