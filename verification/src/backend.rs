use vstd::prelude::*;

use crate::text::{
    chars_of, extend_strings, line_spans, lines, nonblank_lines, nonblank_lines_of, seq_contains_sub,
    seq_starts_with, str_eq, trim, trim_bounds, trim_bounds_by, trim_by, words, words_of,
};

verus! {

broadcast use vstd::string::group_string_axioms;

/// The OS package manager that saya drives.
#[derive(Debug, Clone, Copy, PartialEq, Eq, Structural)]
pub enum BackendKind {
    /// Debian and its derivatives, through `apt-get`.
    Apt,
    /// Arch and its derivatives, official repositories and AUR alike, through `yay`.
    Yay,
}

/// Why no backend can be used on this system.
#[derive(Debug, Clone, PartialEq, Eq)]
pub enum BackendError {
    /// `/etc/os-release` names neither a Debian nor an Arch family system.
    UnsupportedDistro { id: String, id_like: String },
    /// An Arch family system without `/usr/bin/yay`.
    YayMissing,
    /// yay would run as root, which AUR builds refuse.
    YayAsRoot,
}

impl BackendError {
    /// The text that explains this refusal.
    pub open spec fn message_text(self) -> Seq<char> {
        match self {
            BackendError::UnsupportedDistro { id, id_like } => "unsupported distro (ID="@ + id@
                + ", ID_LIKE="@ + id_like@ + ")"@,
            BackendError::YayMissing => "yay is required on Arch-based systems but /usr/bin/yay was not found"@,
            BackendError::YayAsRoot => "yay must not run as root; run saya without sudo"@,
        }
    }

    /// The message that explains this refusal.
    pub fn message(&self) -> (r: String)
        ensures
            r@ == self.message_text(),
    {
        match self {
            BackendError::UnsupportedDistro { id, id_like } => {
                let mut r = "unsupported distro (ID=".to_string();
                r.append(id.as_str());
                r.append(", ID_LIKE=");
                r.append(id_like.as_str());
                r.append(")");
                r
            },
            BackendError::YayMissing => {
                "yay is required on Arch-based systems but /usr/bin/yay was not found".to_string()
            },
            BackendError::YayAsRoot => "yay must not run as root; run saya without sudo".to_string(),
        }
    }
}

// ---------------------------------------------------------------------------
// Detection from /etc/os-release
// ---------------------------------------------------------------------------

/// A value of `/etc/os-release` with surrounding whitespace and then
/// surrounding double quotes taken off.
pub open spec fn unquoted(s: Seq<char>) -> Seq<char> {
    trim_by(trim(s), Some('"'))
}

/// The unquoted value of the last line of `ls` that starts with `key`, or
/// the empty string when no line does.
pub open spec fn field_value(ls: Seq<Seq<char>>, key: Seq<char>) -> Seq<char>
    decreases ls.len(),
{
    if ls.len() == 0 {
        Seq::empty()
    } else if seq_starts_with(ls.last(), key) {
        unquoted(ls.last().skip(key.len() as int))
    } else {
        field_value(ls.drop_last(), key)
    }
}

pub open spec fn os_id(text: Seq<char>) -> Seq<char> {
    field_value(lines(text), "ID="@)
}

pub open spec fn os_id_like(text: Seq<char>) -> Seq<char> {
    field_value(lines(text), "ID_LIKE="@)
}

/// The words of `ID` and `ID_LIKE` together.
pub open spec fn os_words(text: Seq<char>) -> Seq<Seq<char>> {
    words(os_id(text) + " "@ + os_id_like(text))
}

/// The backend that `/etc/os-release` text selects: APT when a word of `ID`
/// or `ID_LIKE` is `debian` or `ubuntu`, else yay when one is `arch`.
pub open spec fn os_release_kind(text: Seq<char>) -> Option<BackendKind> {
    let w = os_words(text);
    if w.contains("debian"@) || w.contains("ubuntu"@) {
        Some(BackendKind::Apt)
    } else if w.contains("arch"@) {
        Some(BackendKind::Yay)
    } else {
        None
    }
}

/// `val` with surrounding whitespace and then surrounding `"` taken off.
pub fn unquote(val: &str) -> (r: String)
    ensures
        r@ == unquoted(val@),
{
    let v = chars_of(val);
    let (a, b) = trim_bounds(&v, 0, v.len());
    assert(v@.subrange(0, v.len() as int) =~= v@);
    let (c, d) = trim_bounds_by(&v, a, b, Some('"'));
    val.substring_char(c, d).to_string()
}

/// Whether `ws` holds `w`.
fn has_word(ws: &Vec<String>, w: &str) -> (b: bool)
    ensures
        b == ws.deep_view().contains(w@),
{
    let mut i: usize = 0;
    while i < ws.len()
        invariant
            i <= ws.len(),
            forall|j: int| 0 <= j < i ==> ws[j]@ != w@,
        decreases ws.len() - i,
    {
        if str_eq(ws[i].as_str(), w) {
            assert(ws.deep_view()[i as int] == w@);
            return true;
        }
        i = i + 1;
    }
    assert forall|j: int| 0 <= j < ws.deep_view().len() implies ws.deep_view()[j] != w@ by {
        assert(ws.deep_view()[j] == ws[j]@);
    }
    false
}

/// Picks the backend from the text of `/etc/os-release`: APT for the Debian
/// family, yay for the Arch family, judged by the words of `ID` and
/// `ID_LIKE`. The last line for each key counts.
pub fn detect_backend_from_os_release(text: &str) -> (r: Result<BackendKind, BackendError>)
    ensures
        match os_release_kind(text@) {
            Some(k) => r == Ok::<BackendKind, BackendError>(k),
            None => r matches Err(BackendError::UnsupportedDistro { id, id_like }) && id@ == os_id(
                text@,
            ) && id_like@ == os_id_like(text@),
        },
{
    let v = chars_of(text);
    let spans = line_spans(&v);
    let ghost ls = lines(v@);
    let mut id = String::new();
    let mut id_like = String::new();
    let mut k: usize = 0;
    while k < spans.len()
        invariant
            v@ == text@,
            ls == lines(v@),
            spans.len() == ls.len(),
            k <= spans.len(),
            forall|i: int|
                #![trigger spans[i]]
                0 <= i < spans.len() ==> spans[i].0 <= spans[i].1 <= v.len() && v@.subrange(
                    spans[i].0 as int,
                    spans[i].1 as int,
                ) == ls[i],
            id@ == field_value(ls.take(k as int), "ID="@),
            id_like@ == field_value(ls.take(k as int), "ID_LIKE="@),
        decreases spans.len() - k,
    {
        let (a, b) = spans[k];
        assert(v@.subrange(a as int, b as int) == ls[k as int]);
        assert(ls.take(k + 1).drop_last() =~= ls.take(k as int));
        assert(ls.take(k + 1).last() == ls[k as int]);
        let line = text.substring_char(a, b);
        proof {
            reveal_strlit("ID=");
            reveal_strlit("ID_LIKE=");
        }
        if crate::text::starts_with(line, "ID=") {
            let rest = line.substring_char(3, line.unicode_len());
            assert(rest@ =~= line@.skip(3));
            id = unquote(rest);
            assert(!seq_starts_with(ls[k as int], "ID_LIKE="@)) by {
                if seq_starts_with(ls[k as int], "ID_LIKE="@) {
                    assert(line@.take(8)[2] == "ID_LIKE="@[2]);
                    assert(line@.take(3)[2] == "ID="@[2]);
                    assert(line@.take(8)[2] == line@[2]);
                    assert(line@.take(3)[2] == line@[2]);
                }
            }
        } else if crate::text::starts_with(line, "ID_LIKE=") {
            let rest = line.substring_char(8, line.unicode_len());
            assert(rest@ =~= line@.skip(8));
            id_like = unquote(rest);
        }
        k = k + 1;
    }
    assert(ls.take(k as int) =~= ls);
    let mut haystack = id.clone();
    haystack.append(" ");
    haystack.append(id_like.as_str());
    let ws = words_of(haystack.as_str());
    if has_word(&ws, "debian") || has_word(&ws, "ubuntu") {
        return Ok(BackendKind::Apt);
    }
    if has_word(&ws, "arch") {
        return Ok(BackendKind::Yay);
    }
    Err(BackendError::UnsupportedDistro { id, id_like })
}

/// What a detected backend needs from the system: yay must be installed at
/// `/usr/bin/yay` and saya must not run as root on an Arch family system.
/// APT needs neither.
pub fn check_backend_environment(kind: BackendKind, yay_installed: bool, euid: u32) -> (r: Result<
    (),
    BackendError,
>)
    ensures
        kind == BackendKind::Apt ==> r == Ok::<(), BackendError>(()),
        kind == BackendKind::Yay ==> r == (if !yay_installed {
            Err(BackendError::YayMissing)
        } else if euid == 0 {
            Err(BackendError::YayAsRoot)
        } else {
            Ok(())
        }),
{
    match kind {
        BackendKind::Apt => Ok(()),
        BackendKind::Yay => {
            if !yay_installed {
                Err(BackendError::YayMissing)
            } else if euid == 0 {
                Err(BackendError::YayAsRoot)
            } else {
                Ok(())
            }
        },
    }
}

// ---------------------------------------------------------------------------
// Reading package manager output
// ---------------------------------------------------------------------------

/// Package names from `apt-mark showmanual`: one per line, trimmed, blank
/// lines left out.
pub fn parse_showmanual(stdout: &str) -> (r: Vec<String>)
    ensures
        r.deep_view() == nonblank_lines(stdout@),
{
    nonblank_lines_of(stdout)
}

/// Package names from `yay -Qqe`: one per line, trimmed, blank lines left
/// out.
pub fn parse_package_list(stdout: &str) -> (r: Vec<String>)
    ensures
        r.deep_view() == nonblank_lines(stdout@),
{
    nonblank_lines_of(stdout)
}

/// Whether a package is installed, from how the query exited and what it
/// printed; `None` when the query failed. `dpkg-query` exits 1 for an
/// unknown package and otherwise prints the status, which must hold
/// `install ok installed`; `yay -Q` succeeds exactly for installed packages
/// and exits 1 for the others.
pub fn installed_from_query(
    kind: BackendKind,
    success: bool,
    exit_code: Option<i32>,
    stdout: &str,
) -> (r: Option<bool>)
    ensures
        !success ==> r == (if exit_code == Some(1i32) {
            Some(false)
        } else {
            None::<bool>
        }),
        success && kind == BackendKind::Apt ==> r == Some(
            seq_contains_sub(stdout@, "install ok installed"@),
        ),
        success && kind == BackendKind::Yay ==> r == Some(true),
{
    if !success {
        if exit_code == Some(1i32) {
            return Some(false);
        }
        return None;
    }
    match kind {
        BackendKind::Apt => Some(crate::text::contains_sub(stdout, "install ok installed")),
        BackendKind::Yay => Some(true),
    }
}

// ---------------------------------------------------------------------------
// Package manager invocations
// ---------------------------------------------------------------------------

/// A program and its arguments, run directly, without a shell.
#[derive(Debug, Clone, PartialEq, Eq)]
pub struct Invocation {
    pub program: String,
    pub args: Vec<String>,
}

pub struct InvocationView {
    pub program: Seq<char>,
    pub args: Seq<Seq<char>>,
}

impl View for Invocation {
    type V = InvocationView;

    open spec fn view(&self) -> InvocationView {
        InvocationView { program: self.program@, args: self.args.deep_view() }
    }
}

pub open spec fn inv(program: Seq<char>, args: Seq<Seq<char>>) -> InvocationView {
    InvocationView { program, args }
}

/// An APT command run through `/usr/bin/sudo`.
pub open spec fn apt_get(args: Seq<Seq<char>>) -> InvocationView {
    inv("/usr/bin/sudo"@, seq!["/usr/bin/apt-get"@] + args)
}

pub open spec fn yay(args: Seq<Seq<char>>) -> InvocationView {
    inv("/usr/bin/yay"@, args)
}

pub open spec fn update_spec(kind: BackendKind) -> InvocationView {
    match kind {
        BackendKind::Apt => apt_get(seq!["update"@]),
        BackendKind::Yay => yay(seq!["-Sy"@]),
    }
}

pub open spec fn upgrade_spec(kind: BackendKind) -> InvocationView {
    match kind {
        BackendKind::Apt => apt_get(seq!["upgrade"@]),
        BackendKind::Yay => yay(seq!["-Syu"@]),
    }
}

pub open spec fn query_spec(kind: BackendKind, name: Seq<char>) -> InvocationView {
    match kind {
        BackendKind::Apt => inv("/usr/bin/dpkg-query"@, seq!["-W"@, "-f=${Status}"@, name]),
        BackendKind::Yay => yay(seq!["-Q"@, "--"@, name]),
    }
}

pub open spec fn install_spec(
    kind: BackendKind,
    names: Seq<Seq<char>>,
    backend_args: Seq<Seq<char>>,
) -> InvocationView {
    match kind {
        BackendKind::Apt => apt_get(seq!["install"@, "-y"@] + backend_args + seq!["--"@] + names),
        BackendKind::Yay => yay(seq!["-S"@, "--noconfirm"@] + backend_args + seq!["--"@] + names),
    }
}

pub open spec fn uninstall_spec(kind: BackendKind, names: Seq<Seq<char>>) -> Seq<InvocationView> {
    match kind {
        BackendKind::Apt => seq![
            apt_get(seq!["remove"@, "--purge"@, "--"@] + names),
            apt_get(seq!["autoremove"@, "--purge"@]),
        ],
        BackendKind::Yay => seq![yay(seq!["-Rns"@, "--noconfirm"@, "--"@] + names)],
    }
}

pub open spec fn list_manual_spec(kind: BackendKind) -> InvocationView {
    match kind {
        BackendKind::Apt => inv("/usr/bin/apt-mark"@, seq!["showmanual"@]),
        BackendKind::Yay => yay(seq!["-Qqe"@]),
    }
}

fn owned(s: &str) -> (r: String)
    ensures
        r@ == s@,
{
    s.to_string()
}

fn strings1(a: &str) -> (r: Vec<String>)
    ensures
        r.deep_view() == seq![a@],
{
    let mut r = Vec::new();
    r.push(owned(a));
    assert(r.deep_view() =~= seq![a@]);
    r
}

fn strings2(a: &str, b: &str) -> (r: Vec<String>)
    ensures
        r.deep_view() == seq![a@, b@],
{
    let mut r = Vec::new();
    r.push(owned(a));
    r.push(owned(b));
    assert(r.deep_view() =~= seq![a@, b@]);
    r
}

fn strings3(a: &str, b: &str, c: &str) -> (r: Vec<String>)
    ensures
        r.deep_view() == seq![a@, b@, c@],
{
    let mut r = Vec::new();
    r.push(owned(a));
    r.push(owned(b));
    r.push(owned(c));
    assert(r.deep_view() =~= seq![a@, b@, c@]);
    r
}

fn apt_get_invocation(args: Vec<String>) -> (r: Invocation)
    ensures
        r@ == apt_get(args.deep_view()),
{
    let mut all = strings1("/usr/bin/apt-get");
    extend_strings(&mut all, &args);
    Invocation { program: owned("/usr/bin/sudo"), args: all }
}

fn yay_invocation(args: Vec<String>) -> (r: Invocation)
    ensures
        r@ == yay(args.deep_view()),
{
    Invocation { program: owned("/usr/bin/yay"), args }
}

/// The command that refreshes package metadata: `sudo apt-get update` or
/// `yay -Sy`.
pub fn update_invocation(kind: BackendKind) -> (r: Invocation)
    ensures
        r@ == update_spec(kind),
{
    match kind {
        BackendKind::Apt => apt_get_invocation(strings1("update")),
        BackendKind::Yay => yay_invocation(strings1("-Sy")),
    }
}

/// The command that upgrades installed packages: `sudo apt-get upgrade` or
/// `yay -Syu`.
pub fn upgrade_invocation(kind: BackendKind) -> (r: Invocation)
    ensures
        r@ == upgrade_spec(kind),
{
    match kind {
        BackendKind::Apt => apt_get_invocation(strings1("upgrade")),
        BackendKind::Yay => yay_invocation(strings1("-Syu")),
    }
}

/// The command that asks whether `name` is installed: `dpkg-query -W
/// -f=${Status} name` or `yay -Q -- name`.
pub fn query_invocation(kind: BackendKind, name: &str) -> (r: Invocation)
    ensures
        r@ == query_spec(kind, name@),
{
    match kind {
        BackendKind::Apt => Invocation {
            program: owned("/usr/bin/dpkg-query"),
            args: strings3("-W", "-f=${Status}", name),
        },
        BackendKind::Yay => yay_invocation(strings3("-Q", "--", name)),
    }
}

/// The command that installs `names` without asking, with `backend_args`
/// passed on unchanged before the `--` that precedes the names; none when
/// there is nothing to install.
pub fn install_invocation(kind: BackendKind, names: &Vec<String>, backend_args: &Vec<String>) -> (r:
    Option<Invocation>)
    ensures
        names.len() == 0 ==> r is None,
        names.len() > 0 ==> (r matches Some(i) && i@ == install_spec(
            kind,
            names.deep_view(),
            backend_args.deep_view(),
        )),
{
    if names.len() == 0 {
        return None;
    }
    let mut args = match kind {
        BackendKind::Apt => strings2("install", "-y"),
        BackendKind::Yay => strings2("-S", "--noconfirm"),
    };
    extend_strings(&mut args, backend_args);
    extend_strings(&mut args, &strings1("--"));
    extend_strings(&mut args, names);
    match kind {
        BackendKind::Apt => Some(apt_get_invocation(args)),
        BackendKind::Yay => Some(yay_invocation(args)),
    }
}

/// The commands that uninstall `names`, in order: `sudo apt-get remove
/// --purge -- names` then `sudo apt-get autoremove --purge`, or `yay -Rns
/// --noconfirm -- names`; none when there is nothing to uninstall.
pub fn uninstall_invocations(kind: BackendKind, names: &Vec<String>) -> (r: Vec<Invocation>)
    ensures
        names.len() == 0 ==> r.len() == 0,
        names.len() > 0 ==> r@.map_values(|i: Invocation| i@) == uninstall_spec(
            kind,
            names.deep_view(),
        ),
{
    let mut r: Vec<Invocation> = Vec::new();
    if names.len() == 0 {
        return r;
    }
    match kind {
        BackendKind::Apt => {
            let mut args = strings3("remove", "--purge", "--");
            extend_strings(&mut args, names);
            r.push(apt_get_invocation(args));
            r.push(apt_get_invocation(strings2("autoremove", "--purge")));
        },
        BackendKind::Yay => {
            let mut args = strings3("-Rns", "--noconfirm", "--");
            extend_strings(&mut args, names);
            r.push(yay_invocation(args));
        },
    }
    assert(r@.map_values(|i: Invocation| i@) =~= uninstall_spec(kind, names.deep_view()));
    r
}

/// The command that lists manually installed packages: `apt-mark
/// showmanual` or `yay -Qqe`.
pub fn list_manual_invocation(kind: BackendKind) -> (r: Invocation)
    ensures
        r@ == list_manual_spec(kind),
{
    match kind {
        BackendKind::Apt => Invocation {
            program: owned("/usr/bin/apt-mark"),
            args: strings1("showmanual"),
        },
        BackendKind::Yay => yay_invocation(strings1("-Qqe")),
    }
}

/// Installing never asks for confirmation: APT gets `-y` and yay gets
/// `--noconfirm`, ahead of any arguments passed on.
pub proof fn law_install_never_asks(
    kind: BackendKind,
    names: Seq<Seq<char>>,
    backend_args: Seq<Seq<char>>,
)
    ensures
        kind == BackendKind::Apt ==> install_spec(kind, names, backend_args).args[2] == "-y"@,
        kind == BackendKind::Yay ==> install_spec(kind, names, backend_args).args[1]
            == "--noconfirm"@,
{
}

/// In every command that installs or uninstalls packages, the package names
/// come last, right after a `--`, so that no name is read as an option.
pub proof fn law_names_follow_separator(
    kind: BackendKind,
    names: Seq<Seq<char>>,
    backend_args: Seq<Seq<char>>,
)
    requires
        names.len() > 0,
    ensures
        ({
            let a = install_spec(kind, names, backend_args).args;
            &&& a.len() > names.len()
            &&& a.skip(a.len() - names.len()) == names
            &&& a[a.len() - names.len() - 1] == "--"@
        }),
        ({
            let a = uninstall_spec(kind, names)[0].args;
            &&& a.len() > names.len()
            &&& a.skip(a.len() - names.len()) == names
            &&& a[a.len() - names.len() - 1] == "--"@
        }),
{
    let a = install_spec(kind, names, backend_args).args;
    assert(a.skip(a.len() - names.len()) =~= names);
    let b = uninstall_spec(kind, names)[0].args;
    assert(b.skip(b.len() - names.len()) =~= names);
}

/// The arguments passed on after `--` on saya's command line reach the
/// install command unchanged and in order, right before the `--` that
/// precedes the package names; everything before them is the same whatever
/// the names and the passed-on arguments are.
pub proof fn law_install_passes_backend_args(
    kind: BackendKind,
    names: Seq<Seq<char>>,
    backend_args: Seq<Seq<char>>,
    other_names: Seq<Seq<char>>,
    other_args: Seq<Seq<char>>,
)
    ensures
        ({
            let a = install_spec(kind, names, backend_args).args;
            let b = install_spec(kind, other_names, other_args).args;
            let tail = backend_args + seq!["--"@] + names;
            let other_tail = other_args + seq!["--"@] + other_names;
            &&& a.len() >= tail.len()
            &&& a.skip(a.len() - tail.len()) == tail
            &&& b.len() >= other_tail.len()
            &&& a.take(a.len() - tail.len()) == b.take(b.len() - other_tail.len())
            &&& install_spec(kind, names, backend_args).program == install_spec(
                kind,
                other_names,
                other_args,
            ).program
        }),
{
    let a = install_spec(kind, names, backend_args).args;
    let b = install_spec(kind, other_names, other_args).args;
    let tail = backend_args + seq!["--"@] + names;
    let other_tail = other_args + seq!["--"@] + other_names;
    assert(a.skip(a.len() - tail.len()) =~= tail);
    assert(a.take(a.len() - tail.len()) =~= b.take(b.len() - other_tail.len()));
}

} // verus!
