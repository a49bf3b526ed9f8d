use vstd::prelude::*;

use crate::backend::BackendKind;
use crate::commands::import::{import_all, import_selected};
use crate::commands::install::new_names;
use crate::manifest::{valid_package_name, Manifest};
use crate::text::{
    chars_of, contains_char, contains_sub, ends_with, seq_contains_sub, seq_ends_with,
    seq_starts_with, starts_with, str_eq,
};

verus! {

broadcast use vstd::string::group_string_axioms;

/// A package manager command name that saya can stand in for.
#[derive(Debug, Clone, Copy, PartialEq, Eq, Structural)]
pub enum ShimKind {
    Apt,
    AptGet,
    Pacman,
}

impl ShimKind {
    /// The shim that a program invoked as `name` stands for.
    pub fn from_basename(name: &str) -> (r: Option<Self>)
        ensures
            r == (if name@ == "apt"@ {
                Some(ShimKind::Apt)
            } else if name@ == "apt-get"@ {
                Some(ShimKind::AptGet)
            } else if name@ == "pacman"@ {
                Some(ShimKind::Pacman)
            } else {
                None
            }),
    {
        if str_eq(name, "apt") {
            Some(ShimKind::Apt)
        } else if str_eq(name, "apt-get") {
            Some(ShimKind::AptGet)
        } else if str_eq(name, "pacman") {
            Some(ShimKind::Pacman)
        } else {
            None
        }
    }

    pub open spec fn real_path_spec(self) -> Seq<char> {
        match self {
            ShimKind::Apt => "/usr/bin/apt"@,
            ShimKind::AptGet => "/usr/bin/apt-get"@,
            ShimKind::Pacman => "/usr/bin/pacman"@,
        }
    }

    /// The real program behind the shim.
    pub fn real_path(&self) -> (r: &'static str)
        ensures
            r@ == self.real_path_spec(),
    {
        match self {
            ShimKind::Apt => "/usr/bin/apt",
            ShimKind::AptGet => "/usr/bin/apt-get",
            ShimKind::Pacman => "/usr/bin/pacman",
        }
    }

    /// The manifest entries that the shim records into: apt and apt-get
    /// into APT's, pacman into the Arch family backend's.
    pub fn backend_kind(&self) -> (r: BackendKind)
        ensures
            r == (match self {
                ShimKind::Apt | ShimKind::AptGet => BackendKind::Apt,
                ShimKind::Pacman => BackendKind::Yay,
            }),
    {
        match self {
            ShimKind::Apt | ShimKind::AptGet => BackendKind::Apt,
            ShimKind::Pacman => BackendKind::Yay,
        }
    }
}

/// An argument that is an option: it starts with `-`.
pub open spec fn is_flag(a: Seq<char>) -> bool {
    a.len() > 0 && a[0] == '-'
}

/// The arguments that are not options, in order.
pub open spec fn positionals(args: Seq<Seq<char>>) -> Seq<Seq<char>>
    decreases args.len(),
{
    if args.len() == 0 {
        Seq::empty()
    } else {
        let rest = positionals(args.drop_last());
        if is_flag(args.last()) {
            rest
        } else {
            rest.push(args.last())
        }
    }
}

/// A plain APT package name: not a `.deb` file, URL, pinned version or path.
pub open spec fn plain_apt_name(s: Seq<char>) -> bool {
    !(seq_ends_with(s, ".deb"@) || seq_contains_sub(s, "://"@) || s.contains('=') || s.contains(
        '/',
    ))
}

/// The plain names of `ns`, in order.
pub open spec fn plain_names(ns: Seq<Seq<char>>) -> Seq<Seq<char>>
    decreases ns.len(),
{
    if ns.len() == 0 {
        Seq::empty()
    } else {
        let rest = plain_names(ns.drop_last());
        if plain_apt_name(ns.last()) {
            rest.push(ns.last())
        } else {
            rest
        }
    }
}

/// The packages an `apt`/`apt-get` command line asks to install: the plain
/// names after an `install` subcommand.
pub open spec fn apt_targets(args: Seq<Seq<char>>) -> Seq<Seq<char>> {
    let pos = positionals(args);
    if pos.len() == 0 || pos[0] != "install"@ {
        Seq::empty()
    } else {
        plain_names(pos.drop_first())
    }
}

pub open spec fn plain_apt_name_test() -> spec_fn(Seq<char>) -> bool {
    |x: Seq<char>| plain_apt_name(x)
}

/// A name counts as a plain APT package name exactly when it does not end
/// in `.deb` and contains none of `://`, `=` and `/`; anything else, a `.`
/// in the middle included, leaves it plain.
pub proof fn law_plain_apt_name_rule(s: Seq<char>)
    ensures
        plain_apt_name(s) <==> {
            &&& !(s.len() >= 4 && s.subrange(s.len() - 4, s.len() as int) == seq![
                '.',
                'd',
                'e',
                'b',
            ])
            &&& !(exists|i: int|
                0 <= i && i + 3 <= s.len() && #[trigger] s.subrange(i, i + 3) == seq![
                    ':',
                    '/',
                    '/',
                ])
            &&& !s.contains('=')
            &&& !s.contains('/')
        },
{
    reveal_strlit(".deb");
    reveal_strlit("://");
    assert(".deb"@ =~= seq!['.', 'd', 'e', 'b']);
    assert("://"@ =~= seq![':', '/', '/']);
    if s.len() >= 4 {
        assert(s.skip(s.len() - 4) =~= s.subrange(s.len() - 4, s.len() as int));
    }
}

/// The targets of an `apt install` command line are its positional
/// arguments after `install` that are plain package names: all of them, in
/// order, and nothing else.
pub proof fn law_apt_targets_are_plain_positionals(args: Seq<Seq<char>>)
    requires
        positionals(args).len() > 0,
        positionals(args)[0] == "install"@,
    ensures
        apt_targets(args) == positionals(args).drop_first().filter(plain_apt_name_test()),
{
    lemma_plain_names_filter(positionals(args).drop_first());
}

proof fn lemma_plain_names_filter(ns: Seq<Seq<char>>)
    ensures
        plain_names(ns) == ns.filter(plain_apt_name_test()),
    decreases ns.len(),
{
    reveal(Seq::filter);
    if ns.len() > 0 {
        lemma_plain_names_filter(ns.drop_last());
        assert(plain_apt_name_test()(ns.last()) == plain_apt_name(ns.last()));
    }
    assert(plain_names(ns) =~= ns.filter(plain_apt_name_test()));
}

pub open spec fn has_remove_flag(args: Seq<Seq<char>>) -> bool {
    exists|i: int|
        0 <= i < args.len() && (seq_starts_with(#[trigger] args[i], "-R"@) || args[i] == "--remove"@)
}

pub open spec fn has_sync_flag(args: Seq<Seq<char>>) -> bool {
    exists|i: int| 0 <= i < args.len() && seq_starts_with(#[trigger] args[i], "-S"@) && !args[i].contains('c')
}

/// The packages a pacman command line asks to install: its non-option
/// arguments, when it syncs (`-S…` without `c`) and does not remove.
pub open spec fn pacman_targets(args: Seq<Seq<char>>) -> Seq<Seq<char>> {
    let pos = positionals(args);
    if pos.len() == 0 || has_remove_flag(args) || !has_sync_flag(args) {
        Seq::empty()
    } else {
        pos
    }
}

pub open spec fn install_targets_spec(kind: BackendKind, args: Seq<Seq<char>>) -> Seq<Seq<char>> {
    match kind {
        BackendKind::Apt => apt_targets(args),
        BackendKind::Yay => pacman_targets(args),
    }
}

fn is_option(a: &str) -> (b: bool)
    ensures
        b == is_flag(a@),
{
    let v = chars_of(a);
    v.len() > 0 && v[0] == '-'
}

fn positional_args(args: &Vec<String>) -> (r: Vec<String>)
    ensures
        r.deep_view() == positionals(args.deep_view()),
{
    let mut r: Vec<String> = Vec::new();
    let mut i: usize = 0;
    while i < args.len()
        invariant
            i <= args.len(),
            r.deep_view() == positionals(args.deep_view().take(i as int)),
        decreases args.len() - i,
    {
        assert(args.deep_view().take(i + 1).drop_last() =~= args.deep_view().take(i as int));
        assert(args.deep_view().take(i + 1).last() == args[i as int]@);
        if !is_option(args[i].as_str()) {
            crate::text::push_copy(&mut r, &args[i]);
        }
        i = i + 1;
    }
    assert(args.deep_view().take(i as int) =~= args.deep_view());
    r
}

/// Whether `s` is a plain APT package name.
pub fn is_plain_apt_package_name(s: &str) -> (b: bool)
    ensures
        b == plain_apt_name(s@),
{
    !(ends_with(s, ".deb") || contains_sub(s, "://") || contains_char(s, '=') || contains_char(
        s,
        '/',
    ))
}

/// The packages an `apt`/`apt-get` command line asks to install.
pub fn parse_apt_install_targets(args: &Vec<String>) -> (r: Vec<String>)
    ensures
        r.deep_view() == apt_targets(args.deep_view()),
{
    let pos = positional_args(args);
    let mut r: Vec<String> = Vec::new();
    if pos.len() == 0 {
        return r;
    }
    assert(pos.deep_view()[0] == pos[0]@);
    if !str_eq(pos[0].as_str(), "install") {
        return r;
    }
    let ghost rest = pos.deep_view().drop_first();
    let mut i: usize = 1;
    while i < pos.len()
        invariant
            1 <= i <= pos.len(),
            rest == pos.deep_view().drop_first(),
            r.deep_view() == plain_names(rest.take(i - 1)),
        decreases pos.len() - i,
    {
        assert(rest.take(i as int).drop_last() =~= rest.take(i - 1));
        assert(rest.take(i as int).last() == pos[i as int]@);
        if is_plain_apt_package_name(pos[i].as_str()) {
            crate::text::push_copy(&mut r, &pos[i]);
        }
        i = i + 1;
    }
    assert(rest.take(i - 1) =~= rest);
    r
}

/// The packages a pacman command line asks to install.
pub fn parse_pacman_install_targets(args: &Vec<String>) -> (r: Vec<String>)
    ensures
        r.deep_view() == pacman_targets(args.deep_view()),
{
    let pos = positional_args(args);
    if pos.len() == 0 {
        return Vec::new();
    }
    let mut has_remove = false;
    let mut has_sync = false;
    let mut i: usize = 0;
    while i < args.len()
        invariant
            i <= args.len(),
            has_remove == has_remove_flag(args.deep_view().take(i as int)),
            has_sync == has_sync_flag(args.deep_view().take(i as int)),
        decreases args.len() - i,
    {
        let ghost prefix = args.deep_view().take(i as int);
        let ghost next = args.deep_view().take(i + 1);
        assert(next[i as int] == args[i as int]@);
        assert(forall|k: int| 0 <= k < i ==> #[trigger] next[k] == prefix[k]);
        let a = args[i].as_str();
        if is_option(a) {
            if starts_with(a, "-R") || str_eq(a, "--remove") {
                has_remove = true;
            }
            if starts_with(a, "-S") && !contains_char(a, 'c') {
                has_sync = true;
            }
        }
        proof {
            reveal_strlit("-R");
            reveal_strlit("-S");
            reveal_strlit("--remove");
            if !is_flag(args[i as int]@) {
                assert(!seq_starts_with(args[i as int]@, "-R"@)) by {
                    if seq_starts_with(args[i as int]@, "-R"@) {
                        assert(args[i as int]@.take(2)[0] == '-');
                    }
                }
                assert(!seq_starts_with(args[i as int]@, "-S"@)) by {
                    if seq_starts_with(args[i as int]@, "-S"@) {
                        assert(args[i as int]@.take(2)[0] == '-');
                    }
                }
                assert(args[i as int]@ != "--remove"@) by {
                    if args[i as int]@ == "--remove"@ {
                        assert(args[i as int]@[0] == '-');
                    }
                }
            }
        }
        i = i + 1;
    }
    assert(args.deep_view().take(i as int) =~= args.deep_view());
    if has_remove || !has_sync {
        return Vec::new();
    }
    pos
}

/// The packages that an invocation of the real package manager asks to
/// install, as `kind`'s command line syntax reads: apt's for APT, pacman's
/// for the Arch family.
pub fn parse_install_targets(kind: BackendKind, args: &Vec<String>) -> (r: Vec<String>)
    ensures
        r.deep_view() == install_targets_spec(kind, args.deep_view()),
{
    match kind {
        BackendKind::Apt => parse_apt_install_targets(args),
        BackendKind::Yay => parse_pacman_install_targets(args),
    }
}

/// After the real package manager succeeded, records as present each
/// target that is not present yet. Returns whether the manifest changed.
pub fn record_targets(manifest: &mut Manifest, kind: BackendKind, targets: &Vec<String>) -> (changed:
    bool)
    requires
        forall|i: int| 0 <= i < targets.len() ==> valid_package_name(#[trigger] targets[i]@),
    ensures
        final(manifest)@ == old(manifest)@.with_set(
            kind,
            import_all(old(manifest)@.set(kind), targets.deep_view()),
        ),
        changed == (new_names(targets.deep_view(), old(manifest)@.set(kind).present).len() > 0),
{
    import_selected(manifest, targets, kind)
}

} // verus!
