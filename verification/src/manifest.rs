use vstd::prelude::*;

use crate::backend::BackendKind;
use crate::text::{
    char_debug, char_debug_string, decimal_string, decimal_text, is_ascii_alnum,
    is_ascii_alphanumeric, str_debug, str_debug_string,
};

verus! {

broadcast use vstd::string::group_string_axioms;

/// The manifest file format version this build reads and writes.
pub const CURRENT_SCHEMA_VERSION: u32 = 5;

// ---------------------------------------------------------------------------
// Package names
// ---------------------------------------------------------------------------

/// Why a package name is refused.
#[derive(Debug, Clone, Copy, PartialEq, Eq, Structural)]
pub enum PackageNameError {
    /// The name is empty.
    Empty,
    /// The first character is not an ASCII letter or digit.
    InvalidStart(char),
    /// A later character is outside the allowed set; the first such one.
    UnsupportedChar(char),
}

impl PackageNameError {
    /// The text that explains this refusal.
    pub open spec fn message_text(self) -> Seq<char> {
        match self {
            PackageNameError::Empty => "package name cannot be empty"@,
            PackageNameError::InvalidStart(_) => "package name must start with an ASCII letter or digit"@,
            PackageNameError::UnsupportedChar(c) => "package name contains unsupported character "@
                + char_debug(c),
        }
    }

    /// The message that explains this refusal; the character is quoted as
    /// `{:?}` writes it.
    pub fn message(&self) -> (r: String)
        ensures
            r@ == self.message_text(),
    {
        match self {
            PackageNameError::Empty => "package name cannot be empty".to_string(),
            PackageNameError::InvalidStart(_) => {
                "package name must start with an ASCII letter or digit".to_string()
            },
            PackageNameError::UnsupportedChar(c) => {
                let mut r = "package name contains unsupported character ".to_string();
                r.append(char_debug_string(*c).as_str());
                r
            },
        }
    }
}

/// ASCII letters and digits, and `. _ + - @ :`.
pub open spec fn allowed_name_char(c: char) -> bool {
    is_ascii_alnum(c) || c == '.' || c == '_' || c == '+' || c == '-' || c == '@' || c == ':'
}

/// The first character of `s` outside the allowed set, if any.
pub open spec fn first_unsupported(s: Seq<char>) -> Option<char>
    decreases s.len(),
{
    if s.len() == 0 {
        None
    } else if !allowed_name_char(s[0]) {
        Some(s[0])
    } else {
        first_unsupported(s.drop_first())
    }
}

/// What is wrong with `s` as a package name, if anything.
pub open spec fn package_name_error(s: Seq<char>) -> Option<PackageNameError> {
    if s.len() == 0 {
        Some(PackageNameError::Empty)
    } else if !is_ascii_alnum(s[0]) {
        Some(PackageNameError::InvalidStart(s[0]))
    } else {
        match first_unsupported(s.drop_first()) {
            Some(c) => Some(PackageNameError::UnsupportedChar(c)),
            None => None,
        }
    }
}

pub open spec fn valid_package_name(s: Seq<char>) -> bool {
    package_name_error(s) is None
}

pub fn is_allowed_package_name_char(ch: char) -> (b: bool)
    ensures
        b == allowed_name_char(ch),
{
    is_ascii_alphanumeric(ch) || ch == '.' || ch == '_' || ch == '+' || ch == '-' || ch == '@'
        || ch == ':'
}

/// Accepts a package name that starts with an ASCII letter or digit and
/// continues with ASCII letters, digits and `. _ + - @ :`.
pub fn validate_package_name(name: &str) -> (r: Result<(), PackageNameError>)
    ensures
        r == (match package_name_error(name@) {
            None => Ok(()),
            Some(e) => Err(e),
        }),
{
    let v = crate::text::chars_of(name);
    if v.len() == 0 {
        return Err(PackageNameError::Empty);
    }
    let first = v[0];
    if !is_ascii_alphanumeric(first) {
        return Err(PackageNameError::InvalidStart(first));
    }
    let mut i: usize = 1;
    while i < v.len()
        invariant
            v@ == name@,
            1 <= i <= v.len(),
            is_ascii_alnum(v@[0]),
            first_unsupported(v@.drop_first()) == first_unsupported(v@.skip(i as int)),
        decreases v.len() - i,
    {
        assert(v@.skip(i as int).drop_first() =~= v@.skip(i + 1));
        assert(v@.skip(i as int)[0] == v[i as int]);
        if !is_allowed_package_name_char(v[i]) {
            assert(first_unsupported(v@.skip(i as int)) == Some(v[i as int]));
            return Err(PackageNameError::UnsupportedChar(v[i]));
        }
        i = i + 1;
    }
    assert(v@.skip(i as int).len() == 0);
    assert(v@.drop_first() =~= v@.skip(1));
    Ok(())
}

/// An ASCII letter or digit, by code point: `a`-`z`, `A`-`Z`, `0`-`9`.
pub open spec fn ascii_letter_or_digit(c: char) -> bool {
    ||| (97 <= c as u32 && c as u32 <= 122)
    ||| (65 <= c as u32 && c as u32 <= 90)
    ||| (48 <= c as u32 && c as u32 <= 57)
}

proof fn lemma_first_unsupported_all(s: Seq<char>)
    ensures
        first_unsupported(s) is None <==> forall|i: int|
            0 <= i < s.len() ==> #[trigger] allowed_name_char(s[i]),
        first_unsupported(s) matches Some(c) ==> exists|i: int|
            0 <= i < s.len() && s[i] == c && !allowed_name_char(c) && forall|j: int|
                0 <= j < i ==> #[trigger] allowed_name_char(s[j]),
    decreases s.len(),
{
    if s.len() > 0 {
        let rest = s.drop_first();
        lemma_first_unsupported_all(rest);
        assert forall|i: int| 0 < i < s.len() implies s[i] == rest[i - 1] by {}
        if first_unsupported(s) is None {
            assert forall|i: int| 0 <= i < s.len() implies #[trigger] allowed_name_char(s[i]) by {
                if i > 0 {
                    assert(s[i] == rest[i - 1]);
                }
            }
        } else if allowed_name_char(s[0]) {
            let c = first_unsupported(s)->0;
            let k = choose|k: int|
                0 <= k < rest.len() && rest[k] == c && !allowed_name_char(c) && forall|j: int|
                    0 <= j < k ==> #[trigger] allowed_name_char(rest[j]);
            assert(s[k + 1] == c);
            assert forall|j: int| 0 <= j < k + 1 implies #[trigger] allowed_name_char(s[j]) by {
                if j > 0 {
                    assert(s[j] == rest[j - 1]);
                }
            }
        } else {
            assert(!allowed_name_char(s[0]));
        }
    }
}

/// A package name is accepted exactly when it starts with an ASCII letter or
/// digit and every later character is an ASCII letter or digit or one of
/// `. _ + - @ :`. A refusal names the empty name, the first character, or
/// the first later character outside that set.
pub proof fn law_package_name_rule(s: Seq<char>)
    ensures
        package_name_error(s) is None <==> (s.len() > 0 && ascii_letter_or_digit(s[0])
            && forall|i: int|
            1 <= i < s.len() ==> {
                let c = #[trigger] s[i];
                ascii_letter_or_digit(c) || c == '.' || c == '_' || c == '+' || c == '-' || c
                    == '@' || c == ':'
            }),
        package_name_error(s) == Some(PackageNameError::Empty) <==> s.len() == 0,
        package_name_error(s) matches Some(PackageNameError::InvalidStart(c)) ==> s.len() > 0
            && c == s[0] && !ascii_letter_or_digit(c),
        package_name_error(s) matches Some(PackageNameError::UnsupportedChar(c)) ==> exists|i: int|
            1 <= i < s.len() && s[i] == c && !(ascii_letter_or_digit(c) || c == '.' || c == '_'
                || c == '+' || c == '-' || c == '@' || c == ':') && forall|j: int|
                1 <= j < i ==> {
                    let d = #[trigger] s[j];
                    ascii_letter_or_digit(d) || d == '.' || d == '_' || d == '+' || d == '-' || d
                        == '@' || d == ':'
                },
{
    if s.len() > 0 {
        let rest = s.drop_first();
        lemma_first_unsupported_all(rest);
        assert forall|i: int| 1 <= i < s.len() implies s[i] == rest[i - 1] by {}
        if package_name_error(s) is None {
            assert forall|i: int| 1 <= i < s.len() implies {
                let c = #[trigger] s[i];
                ascii_letter_or_digit(c) || c == '.' || c == '_' || c == '+' || c == '-' || c
                    == '@' || c == ':'
            } by {
                assert(allowed_name_char(rest[i - 1]));
            }
        }
        if s.len() > 0 && ascii_letter_or_digit(s[0]) && forall|i: int|
            1 <= i < s.len() ==> {
                let c = #[trigger] s[i];
                ascii_letter_or_digit(c) || c == '.' || c == '_' || c == '+' || c == '-' || c
                    == '@' || c == ':'
            } {
            assert forall|i: int| 0 <= i < rest.len() implies #[trigger] allowed_name_char(
                rest[i],
            ) by {
                assert(rest[i] == s[i + 1]);
            }
        }
        if let Some(PackageNameError::UnsupportedChar(c)) = package_name_error(s) {
            let k = choose|k: int|
                0 <= k < rest.len() && rest[k] == c && !allowed_name_char(c) && forall|j: int|
                    0 <= j < k ==> #[trigger] allowed_name_char(rest[j]);
            assert(s[k + 1] == c);
            assert forall|j: int| 1 <= j < k + 1 implies {
                let d = #[trigger] s[j];
                ascii_letter_or_digit(d) || d == '.' || d == '_' || d == '+' || d == '-' || d
                    == '@' || d == ':'
            } by {
                assert(allowed_name_char(rest[j - 1]));
            }
        }
    }
}

// ---------------------------------------------------------------------------
// Lists of names
// ---------------------------------------------------------------------------

/// `s` with every occurrence of `x` taken out, the rest in order.
pub open spec fn remove_all(s: Seq<Seq<char>>, x: Seq<char>) -> Seq<Seq<char>>
    decreases s.len(),
{
    if s.len() == 0 {
        Seq::empty()
    } else {
        let rest = remove_all(s.drop_last(), x);
        if s.last() == x {
            rest
        } else {
            rest.push(s.last())
        }
    }
}

/// `s` with `x` appended unless it is already there.
pub open spec fn insert_once(s: Seq<Seq<char>>, x: Seq<char>) -> Seq<Seq<char>> {
    if s.contains(x) {
        s
    } else {
        s.push(x)
    }
}

pub proof fn lemma_push_contains(s: Seq<Seq<char>>, a: Seq<char>, y: Seq<char>)
    ensures
        s.push(a).contains(y) <==> (s.contains(y) || y == a),
{
    if s.push(a).contains(y) {
        let j = choose|j: int| 0 <= j < s.push(a).len() && s.push(a)[j] == y;
        if j < s.len() {
            assert(s[j] == y);
        }
    }
    if s.contains(y) {
        let j = choose|j: int| 0 <= j < s.len() && s[j] == y;
        assert(s.push(a)[j] == y);
    }
    if y == a {
        assert(s.push(a)[s.len() as int] == y);
    }
}

pub proof fn lemma_remove_all_contains(s: Seq<Seq<char>>, x: Seq<char>, y: Seq<char>)
    ensures
        remove_all(s, x).contains(y) <==> (s.contains(y) && y != x),
    decreases s.len(),
{
    if s.len() > 0 {
        lemma_remove_all_contains(s.drop_last(), x, y);
        let rest = remove_all(s.drop_last(), x);
        assert(s =~= s.drop_last().push(s.last()));
        lemma_push_contains(s.drop_last(), s.last(), y);
        lemma_push_contains(rest, s.last(), y);
    }
}

pub proof fn lemma_remove_all_absent(s: Seq<Seq<char>>, x: Seq<char>)
    requires
        !s.contains(x),
    ensures
        remove_all(s, x) == s,
    decreases s.len(),
{
    if s.len() > 0 {
        assert(!s.drop_last().contains(x)) by {
            if s.drop_last().contains(x) {
                let i = choose|i: int| 0 <= i < s.drop_last().len() && s.drop_last()[i] == x;
                assert(s[i] == x);
            }
        }
        lemma_remove_all_absent(s.drop_last(), x);
        assert(s.last() != x) by {
            assert(s[s.len() - 1] == s.last());
        }
        assert(s.drop_last().push(s.last()) =~= s);
    }
}

/// Whether `v` holds `name`.
pub fn list_contains(v: &Vec<String>, name: &str) -> (b: bool)
    ensures
        b == v.deep_view().contains(name@),
{
    let key = name.to_string();
    let mut i: usize = 0;
    while i < v.len()
        invariant
            key@ == name@,
            i <= v.len(),
            forall|j: int| 0 <= j < i ==> v[j]@ != name@,
        decreases v.len() - i,
    {
        if v[i] == key {
            assert(v.deep_view()[i as int] == name@);
            return true;
        }
        i = i + 1;
    }
    assert forall|j: int| 0 <= j < v.deep_view().len() implies v.deep_view()[j] != name@ by {
        assert(v.deep_view()[j] == v[j]@);
    }
    false
}

/// `v` without any `name`.
pub fn without(v: &Vec<String>, name: &str) -> (r: Vec<String>)
    ensures
        r.deep_view() == remove_all(v.deep_view(), name@),
{
    let key = name.to_string();
    let mut r: Vec<String> = Vec::new();
    let mut i: usize = 0;
    while i < v.len()
        invariant
            key@ == name@,
            i <= v.len(),
            r.deep_view() == remove_all(v.deep_view().take(i as int), name@),
        decreases v.len() - i,
    {
        assert(v.deep_view().take(i + 1).drop_last() =~= v.deep_view().take(i as int));
        assert(v.deep_view().take(i + 1).last() == v[i as int]@);
        if v[i] != key {
            r.push(v[i].clone());
            assert(r.deep_view() =~= remove_all(v.deep_view().take(i as int), name@).push(
                v[i as int]@,
            ));
        }
        i = i + 1;
    }
    assert(v.deep_view().take(i as int) =~= v.deep_view());
    r
}

/// Appends `name` to `v` unless `v` already holds it.
pub fn push_once(v: &mut Vec<String>, name: &str)
    ensures
        final(v).deep_view() == insert_once(old(v).deep_view(), name@),
{
    if !list_contains(v, name) {
        v.push(name.to_string());
        assert(v.deep_view() =~= old(v).deep_view().push(name@));
    }
}

/// The first of `ls` that is not a valid package name, if any.
pub open spec fn first_invalid(ls: Seq<Seq<char>>) -> Option<Seq<char>>
    decreases ls.len(),
{
    if ls.len() == 0 {
        None
    } else if !valid_package_name(ls[0]) {
        Some(ls[0])
    } else {
        first_invalid(ls.drop_first())
    }
}

/// The first of `ns` that `others` holds, if any.
pub open spec fn first_listed_in(ns: Seq<Seq<char>>, others: Seq<Seq<char>>) -> Option<Seq<char>>
    decreases ns.len(),
{
    if ns.len() == 0 {
        None
    } else if others.contains(ns[0]) {
        Some(ns[0])
    } else {
        first_listed_in(ns.drop_first(), others)
    }
}

pub proof fn lemma_first_invalid_none(ls: Seq<Seq<char>>)
    ensures
        first_invalid(ls) is None <==> forall|i: int|
            0 <= i < ls.len() ==> valid_package_name(#[trigger] ls[i]),
    decreases ls.len(),
{
    if ls.len() > 0 {
        let rest = ls.drop_first();
        lemma_first_invalid_none(rest);
        if first_invalid(ls) is None {
            assert forall|i: int| 0 <= i < ls.len() implies valid_package_name(#[trigger] ls[i]) by {
                if i > 0 {
                    assert(rest[i - 1] == ls[i]);
                }
            }
        } else if valid_package_name(ls[0]) {
            let j = choose|j: int| 0 <= j < rest.len() && !valid_package_name(#[trigger] rest[j]);
            assert(ls[j + 1] == rest[j]);
        }
    }
}

/// The first invalid name of two lists read one after the other is the
/// first invalid name of the first list, or else of the second.
pub proof fn lemma_first_invalid_append(a: Seq<Seq<char>>, b: Seq<Seq<char>>)
    ensures
        first_invalid(a + b) == (if first_invalid(a) is Some {
            first_invalid(a)
        } else {
            first_invalid(b)
        }),
    decreases a.len(),
{
    if a.len() == 0 {
        assert(a + b =~= b);
    } else {
        assert((a + b).drop_first() =~= a.drop_first() + b);
        assert((a + b)[0] == a[0]);
        lemma_first_invalid_append(a.drop_first(), b);
    }
}

// ---------------------------------------------------------------------------
// The manifest
// ---------------------------------------------------------------------------

/// What saya keeps for one backend: names to install and names to keep
/// uninstalled.
#[derive(Debug, Clone, PartialEq, Eq)]
pub struct PackageSet {
    pub present: Vec<String>,
    pub absent: Vec<String>,
}

pub struct PackageSetView {
    pub present: Seq<Seq<char>>,
    pub absent: Seq<Seq<char>>,
}

impl View for PackageSet {
    type V = PackageSetView;

    open spec fn view(&self) -> PackageSetView {
        PackageSetView { present: self.present.deep_view(), absent: self.absent.deep_view() }
    }
}

impl PackageSetView {
    /// No name is both present and absent.
    pub open spec fn disjoint(self) -> bool {
        forall|n: Seq<char>| !(#[trigger] self.present.contains(n) && self.absent.contains(n))
    }

    /// Every name is a valid package name.
    pub open spec fn names_valid(self) -> bool {
        &&& forall|i: int| 0 <= i < self.present.len() ==> valid_package_name(#[trigger] self.present[i])
        &&& forall|i: int| 0 <= i < self.absent.len() ==> valid_package_name(#[trigger] self.absent[i])
    }

    /// Recording `name` as present: appended to `present` unless there, and
    /// taken out of `absent`.
    pub open spec fn with_present(self, name: Seq<char>) -> PackageSetView {
        PackageSetView {
            present: insert_once(self.present, name),
            absent: remove_all(self.absent, name),
        }
    }

    /// Recording `name` as absent: appended to `absent` unless there, and
    /// taken out of `present`.
    pub open spec fn with_absent(self, name: Seq<char>) -> PackageSetView {
        PackageSetView {
            present: remove_all(self.present, name),
            absent: insert_once(self.absent, name),
        }
    }

    /// `name` taken out of `present`; `absent` as it was.
    pub open spec fn without_present(self, name: Seq<char>) -> PackageSetView {
        PackageSetView { present: remove_all(self.present, name), absent: self.absent }
    }

    /// The first present name, in order, that is also absent.
    pub open spec fn first_clash(self) -> Option<Seq<char>> {
        first_listed_in(self.present, self.absent)
    }
}

/// The manifest: a schema version and, per backend, the names saya installs
/// and the names it keeps uninstalled.
#[derive(Debug, Clone, PartialEq, Eq)]
pub struct Manifest {
    pub schema_version: u32,
    pub apt: PackageSet,
    pub yay: PackageSet,
}

pub struct ManifestView {
    pub schema_version: u32,
    pub apt: PackageSetView,
    pub yay: PackageSetView,
}

impl View for Manifest {
    type V = ManifestView;

    open spec fn view(&self) -> ManifestView {
        ManifestView { schema_version: self.schema_version, apt: self.apt@, yay: self.yay@ }
    }
}

impl ManifestView {
    pub open spec fn set(self, kind: BackendKind) -> PackageSetView {
        match kind {
            BackendKind::Apt => self.apt,
            BackendKind::Yay => self.yay,
        }
    }

    /// The same manifest with `kind`'s entries replaced by `s`.
    pub open spec fn with_set(self, kind: BackendKind, s: PackageSetView) -> ManifestView {
        match kind {
            BackendKind::Apt => ManifestView { apt: s, ..self },
            BackendKind::Yay => ManifestView { yay: s, ..self },
        }
    }

    /// The four lists one after the other, in the order they are checked:
    /// apt present, apt absent, yay present, yay absent.
    pub open spec fn all_names(self) -> Seq<Seq<char>> {
        self.apt.present + self.apt.absent + self.yay.present + self.yay.absent
    }

    /// Whether `e` is the error that checking this manifest reports: a wrong
    /// schema version first; then the first invalid name of `all_names`;
    /// then the first clash of apt's entries, or else of yay's.
    pub open spec fn refuses_with(self, e: ManifestError) -> bool {
        match e {
            ManifestError::UnsupportedSchema { found, expected } => {
                &&& self.schema_version != CURRENT_SCHEMA_VERSION
                &&& found == self.schema_version
                &&& expected == CURRENT_SCHEMA_VERSION
            },
            ManifestError::InvalidPackageName { name, reason } => {
                &&& self.schema_version == CURRENT_SCHEMA_VERSION
                &&& first_invalid(self.all_names()) == Some(name@)
                &&& package_name_error(name@) == Some(reason)
            },
            ManifestError::PresentAndAbsent { kind, name } => {
                &&& self.schema_version == CURRENT_SCHEMA_VERSION
                &&& first_invalid(self.all_names()) is None
                &&& match kind {
                    BackendKind::Apt => self.apt.first_clash() == Some(name@),
                    BackendKind::Yay => self.apt.first_clash() is None && self.yay.first_clash()
                        == Some(name@),
                }
            },
        }
    }

    /// Every name is valid and no name is both present and absent.
    pub open spec fn well_formed(self) -> bool {
        &&& self.apt.names_valid()
        &&& self.yay.names_valid()
        &&& self.apt.disjoint()
        &&& self.yay.disjoint()
    }
}

/// Why a manifest is refused.
#[derive(Debug, Clone, PartialEq, Eq)]
pub enum ManifestError {
    /// The file's `schema_version` is not the one this build reads.
    UnsupportedSchema { found: u32, expected: u32 },
    /// A listed name is not a valid package name.
    InvalidPackageName { name: String, reason: PackageNameError },
    /// A name is listed both as present and as absent for one backend.
    PresentAndAbsent { kind: BackendKind, name: String },
}

impl ManifestError {
    /// The text that explains this refusal.
    pub open spec fn message_text(self) -> Seq<char> {
        match self {
            ManifestError::UnsupportedSchema { found, expected } => "unsupported manifest schema_version "@
                + decimal_text(found as nat) + "; expected "@ + decimal_text(expected as nat),
            ManifestError::InvalidPackageName { name, reason } => "invalid package name "@
                + str_debug(name@) + ": "@ + reason.message_text(),
            ManifestError::PresentAndAbsent { kind, name } => str_debug(name@)
                + " is listed as both present and absent for "@ + match kind {
                BackendKind::Apt => "apt"@,
                BackendKind::Yay => "yay"@,
            },
        }
    }

    /// The message that explains this refusal; a name is quoted as `{:?}`
    /// writes it, and a refused name is followed by `: ` and the reason.
    pub fn message(&self) -> (r: String)
        ensures
            r@ == self.message_text(),
    {
        match self {
            ManifestError::UnsupportedSchema { found, expected } => {
                let mut r = "unsupported manifest schema_version ".to_string();
                r.append(decimal_string(*found).as_str());
                r.append("; expected ");
                r.append(decimal_string(*expected).as_str());
                r
            },
            ManifestError::InvalidPackageName { name, reason } => {
                let mut r = "invalid package name ".to_string();
                r.append(str_debug_string(name.as_str()).as_str());
                r.append(": ");
                r.append(reason.message().as_str());
                r
            },
            ManifestError::PresentAndAbsent { kind, name } => {
                let mut r = str_debug_string(name.as_str());
                r.append(" is listed as both present and absent for ");
                match kind {
                    BackendKind::Apt => r.append("apt"),
                    BackendKind::Yay => r.append("yay"),
                }
                r
            },
        }
    }
}

/// The first name of `v` that is not a valid package name, with the reason.
fn check_names(v: &Vec<String>) -> (r: Result<(), (String, PackageNameError)>)
    ensures
        r is Ok <==> first_invalid(v.deep_view()) is None,
        r is Ok <==> forall|i: int|
            0 <= i < v.deep_view().len() ==> valid_package_name(#[trigger] v.deep_view()[i]),
        r matches Err((n, e)) ==> first_invalid(v.deep_view()) == Some(n@) && package_name_error(
            n@,
        ) == Some(e),
{
    let ghost all = v.deep_view();
    let mut i: usize = 0;
    assert(all.skip(0) =~= all);
    while i < v.len()
        invariant
            all == v.deep_view(),
            i <= v.len(),
            first_invalid(all) == first_invalid(all.skip(i as int)),
        decreases v.len() - i,
    {
        assert(all.skip(i as int).drop_first() =~= all.skip(i + 1));
        assert(all.skip(i as int)[0] == v[i as int]@);
        match validate_package_name(v[i].as_str()) {
            Ok(()) => {},
            Err(e) => {
                proof {
                    lemma_first_invalid_none(all);
                }
                return Err((v[i].clone(), e));
            },
        }
        i = i + 1;
    }
    assert(all.skip(i as int).len() == 0);
    proof {
        lemma_first_invalid_none(all);
    }
    Ok(())
}

/// The first present name of `set`, in order, that is also absent.
fn find_conflict(set: &PackageSet) -> (r: Option<String>)
    ensures
        r is None <==> set@.disjoint(),
        r is None <==> set@.first_clash() is None,
        r matches Some(n) ==> set@.first_clash() == Some(n@),
{
    let ghost p = set@.present;
    let ghost a = set@.absent;
    let mut i: usize = 0;
    assert(p.skip(0) =~= p);
    while i < set.present.len()
        invariant
            p == set@.present,
            a == set@.absent,
            i <= set.present.len(),
            forall|j: int| 0 <= j < i ==> !a.contains(#[trigger] p[j]),
            first_listed_in(p, a) == first_listed_in(p.skip(i as int), a),
        decreases set.present.len() - i,
    {
        assert(p[i as int] == set.present[i as int]@);
        assert(p.skip(i as int).drop_first() =~= p.skip(i + 1));
        assert(p.skip(i as int)[0] == p[i as int]);
        if list_contains(&set.absent, set.present[i].as_str()) {
            assert(p.contains(p[i as int]));
            return Some(set.present[i].clone());
        }
        i = i + 1;
    }
    assert(p.skip(i as int).len() == 0);
    assert forall|n: Seq<char>| !(#[trigger] p.contains(n) && a.contains(n)) by {
        if p.contains(n) {
            let j = choose|j: int| 0 <= j < p.len() && p[j] == n;
        }
    }
    None
}

impl PackageSet {
    pub fn new() -> (s: Self)
        ensures
            s@.present.len() == 0,
            s@.absent.len() == 0,
    {
        PackageSet { present: Vec::new(), absent: Vec::new() }
    }
}

impl Default for Manifest {
    fn default() -> (m: Self)
        ensures
            m@.schema_version == CURRENT_SCHEMA_VERSION,
            m@.apt.present.len() == 0,
            m@.apt.absent.len() == 0,
            m@.yay.present.len() == 0,
            m@.yay.absent.len() == 0,
    {
        Manifest {
            schema_version: CURRENT_SCHEMA_VERSION,
            apt: PackageSet::new(),
            yay: PackageSet::new(),
        }
    }
}

impl Manifest {
    fn set_mut(&mut self, kind: BackendKind) -> (r: &mut PackageSet)
        ensures
            *r == old(self).set_of(kind),
            final(self)@ == old(self)@.with_set(kind, final(r)@),
    {
        match kind {
            BackendKind::Apt => &mut self.apt,
            BackendKind::Yay => &mut self.yay,
        }
    }

    pub open spec fn set_of(self, kind: BackendKind) -> PackageSet {
        match kind {
            BackendKind::Apt => self.apt,
            BackendKind::Yay => self.yay,
        }
    }

    /// Accepts the manifest when its `schema_version` is the current one, every
    /// name is a valid package name, and no name is both present and absent
    /// for one backend. The checks run in that order, and each reports the
    /// first failure it finds: the names are read apt present, apt absent, yay
    /// present, yay absent, and clashes are looked for in apt's entries before
    /// yay's, each in the order of its present names.
    pub fn validate(&self) -> (r: Result<(), ManifestError>)
        ensures
            r is Ok <==> self@.schema_version == CURRENT_SCHEMA_VERSION && self@.well_formed(),
            r matches Err(e) ==> self@.refuses_with(e),
    {
        if self.schema_version != CURRENT_SCHEMA_VERSION {
            return Err(
                ManifestError::UnsupportedSchema {
                    found: self.schema_version,
                    expected: CURRENT_SCHEMA_VERSION,
                },
            );
        }
        let ghost ap = self@.apt.present;
        let ghost aa = self@.apt.absent;
        let ghost yp = self@.yay.present;
        let ghost ya = self@.yay.absent;
        proof {
            lemma_first_invalid_append(ap, aa);
            lemma_first_invalid_append(ap + aa, yp);
            lemma_first_invalid_append(ap + aa + yp, ya);
            assert(self@.all_names() == ap + aa + yp + ya);
        }
        match check_names(&self.apt.present) {
            Ok(()) => {},
            Err((name, reason)) => {
                return Err(ManifestError::InvalidPackageName { name, reason });
            },
        }
        match check_names(&self.apt.absent) {
            Ok(()) => {},
            Err((name, reason)) => {
                return Err(ManifestError::InvalidPackageName { name, reason });
            },
        }
        match check_names(&self.yay.present) {
            Ok(()) => {},
            Err((name, reason)) => {
                return Err(ManifestError::InvalidPackageName { name, reason });
            },
        }
        match check_names(&self.yay.absent) {
            Ok(()) => {},
            Err((name, reason)) => {
                return Err(ManifestError::InvalidPackageName { name, reason });
            },
        }
        match find_conflict(&self.apt) {
            None => {},
            Some(name) => {
                return Err(ManifestError::PresentAndAbsent { kind: BackendKind::Apt, name });
            },
        }
        match find_conflict(&self.yay) {
            None => {},
            Some(name) => {
                return Err(ManifestError::PresentAndAbsent { kind: BackendKind::Yay, name });
            },
        }
        Ok(())
    }

    /// The names recorded as present for `kind`, in manifest order.
    pub fn names(&self, kind: BackendKind) -> (r: &Vec<String>)
        ensures
            r.deep_view() == self@.set(kind).present,
    {
        match kind {
            BackendKind::Apt => &self.apt.present,
            BackendKind::Yay => &self.yay.present,
        }
    }

    /// The names recorded as absent for `kind`, in manifest order.
    pub fn absent_names(&self, kind: BackendKind) -> (r: &Vec<String>)
        ensures
            r.deep_view() == self@.set(kind).absent,
    {
        match kind {
            BackendKind::Apt => &self.apt.absent,
            BackendKind::Yay => &self.yay.absent,
        }
    }

    /// Whether `name` is recorded as present for `kind`.
    pub fn contains(&self, name: &str, kind: BackendKind) -> (b: bool)
        ensures
            b == self@.set(kind).present.contains(name@),
    {
        list_contains(self.names(kind), name)
    }

    /// Whether `name` is recorded as absent for `kind`.
    pub fn is_absent(&self, name: &str, kind: BackendKind) -> (b: bool)
        ensures
            b == self@.set(kind).absent.contains(name@),
    {
        list_contains(self.absent_names(kind), name)
    }

    /// Records `name` as present for `kind`: appended to `present` unless it
    /// is there already, and taken out of `absent`. The other backend is left
    /// as it was.
    pub fn record(&mut self, name: &str, kind: BackendKind)
        requires
            valid_package_name(name@),
        ensures
            final(self)@ == old(self)@.with_set(kind, old(self)@.set(kind).with_present(name@)),
    {
        let set = self.set_mut(kind);
        let absent = without(&set.absent, name);
        set.absent = absent;
        push_once(&mut set.present, name);
    }

    /// Records `name` as absent for `kind`: appended to `absent` unless it is
    /// there already, and taken out of `present`.
    pub fn record_absent(&mut self, name: &str, kind: BackendKind)
        ensures
            final(self)@ == old(self)@.with_set(kind, old(self)@.set(kind).with_absent(name@)),
    {
        let set = self.set_mut(kind);
        let present = without(&set.present, name);
        set.present = present;
        push_once(&mut set.absent, name);
    }

    /// Takes `name` out of `kind`'s present names. Returns whether it was
    /// there.
    pub fn remove(&mut self, name: &str, kind: BackendKind) -> (was_present: bool)
        ensures
            was_present == old(self)@.set(kind).present.contains(name@),
            final(self)@ == old(self)@.with_set(kind, old(self)@.set(kind).without_present(name@)),
    {
        let set = self.set_mut(kind);
        let was_present = list_contains(&set.present, name);
        let present = without(&set.present, name);
        set.present = present;
        was_present
    }
}

// ---------------------------------------------------------------------------
// Saving
// ---------------------------------------------------------------------------

/// How a save treats the file on disk.
#[derive(Debug, Clone, Copy, PartialEq, Eq, Structural)]
pub enum SaveAction {
    /// The file already holds exactly the new text: its contents are left
    /// alone and only its permissions are set.
    KeepContents,
    /// The file is missing or differs: it is replaced atomically.
    Replace,
}

/// Whether saving `serialized` over a file whose current contents are
/// `current` (none when it cannot be read) must write it: only when the bytes
/// differ, so that an unchanged manifest keeps its file.
pub fn save_action(current: &Option<Vec<u8>>, serialized: &Vec<u8>) -> (r: SaveAction)
    ensures
        (r == SaveAction::KeepContents) <==> (current matches Some(c) && c@ == serialized@),
{
    match current {
        None => SaveAction::Replace,
        Some(c) => {
            if c.len() != serialized.len() {
                return SaveAction::Replace;
            }
            let mut i: usize = 0;
            while i < c.len()
                invariant
                    *current == Some(*c),
                    c.len() == serialized.len(),
                    i <= c.len(),
                    forall|j: int| 0 <= j < i ==> c@[j] == serialized@[j],
                decreases c.len() - i,
            {
                if c[i] != serialized[i] {
                    assert(c@[i as int] != serialized@[i as int]);
                    assert(c@ != serialized@);
                    return SaveAction::Replace;
                }
                i = i + 1;
            }
            assert(c@ =~= serialized@);
            SaveAction::KeepContents
        },
    }
}

// ---------------------------------------------------------------------------
// Laws of the manifest operations
// ---------------------------------------------------------------------------

proof fn lemma_index_contained(s: Seq<Seq<char>>, i: int)
    requires
        0 <= i < s.len(),
    ensures
        s.contains(s[i]),
{
}

proof fn lemma_insert_once_contains(s: Seq<Seq<char>>, x: Seq<char>, y: Seq<char>)
    ensures
        insert_once(s, x).contains(y) <==> (s.contains(y) || y == x),
{
    lemma_push_contains(s, x, y);
}

proof fn lemma_all_valid_by_contains(s: Seq<Seq<char>>, t: Seq<Seq<char>>)
    requires
        forall|i: int| 0 <= i < t.len() ==> valid_package_name(#[trigger] t[i]),
        forall|y: Seq<char>| #[trigger] s.contains(y) ==> t.contains(y) || valid_package_name(y),
    ensures
        forall|i: int| 0 <= i < s.len() ==> valid_package_name(#[trigger] s[i]),
{
    assert forall|i: int| 0 <= i < s.len() implies valid_package_name(#[trigger] s[i]) by {
        lemma_index_contained(s, i);
        if t.contains(s[i]) {
            let j = choose|j: int| 0 <= j < t.len() && t[j] == s[i];
        }
    }
}

/// Recording a valid name as present keeps a well-formed backend entry
/// well-formed: every name valid, no name both present and absent.
pub proof fn law_record_keeps_well_formed(s: PackageSetView, name: Seq<char>)
    requires
        s.names_valid(),
        s.disjoint(),
        valid_package_name(name),
    ensures
        s.with_present(name).names_valid(),
        s.with_present(name).disjoint(),
{
    let r = s.with_present(name);
    assert forall|y: Seq<char>| #[trigger] r.present.contains(y) implies s.present.contains(y)
        || valid_package_name(y) by {
        lemma_insert_once_contains(s.present, name, y);
    }
    assert forall|y: Seq<char>| #[trigger] r.absent.contains(y) implies s.absent.contains(y)
        || valid_package_name(y) by {
        lemma_remove_all_contains(s.absent, name, y);
    }
    lemma_all_valid_by_contains(r.present, s.present);
    lemma_all_valid_by_contains(r.absent, s.absent);
    assert forall|y: Seq<char>| !(#[trigger] r.present.contains(y) && r.absent.contains(y)) by {
        lemma_insert_once_contains(s.present, name, y);
        lemma_remove_all_contains(s.absent, name, y);
    }
}

/// Recording a valid name as absent keeps a well-formed backend entry
/// well-formed.
pub proof fn law_record_absent_keeps_well_formed(s: PackageSetView, name: Seq<char>)
    requires
        s.names_valid(),
        s.disjoint(),
        valid_package_name(name),
    ensures
        s.with_absent(name).names_valid(),
        s.with_absent(name).disjoint(),
{
    let r = s.with_absent(name);
    assert forall|y: Seq<char>| #[trigger] r.present.contains(y) implies s.present.contains(y)
        || valid_package_name(y) by {
        lemma_remove_all_contains(s.present, name, y);
    }
    assert forall|y: Seq<char>| #[trigger] r.absent.contains(y) implies s.absent.contains(y)
        || valid_package_name(y) by {
        lemma_insert_once_contains(s.absent, name, y);
    }
    lemma_all_valid_by_contains(r.present, s.present);
    lemma_all_valid_by_contains(r.absent, s.absent);
    assert forall|y: Seq<char>| !(#[trigger] r.present.contains(y) && r.absent.contains(y)) by {
        lemma_remove_all_contains(s.present, name, y);
        lemma_insert_once_contains(s.absent, name, y);
    }
}

/// Taking a name out of `present` keeps a well-formed backend entry
/// well-formed.
pub proof fn law_remove_keeps_well_formed(s: PackageSetView, name: Seq<char>)
    requires
        s.names_valid(),
        s.disjoint(),
    ensures
        s.without_present(name).names_valid(),
        s.without_present(name).disjoint(),
{
    let r = s.without_present(name);
    assert forall|y: Seq<char>| #[trigger] r.present.contains(y) implies s.present.contains(y)
        || valid_package_name(y) by {
        lemma_remove_all_contains(s.present, name, y);
    }
    lemma_all_valid_by_contains(r.present, s.present);
    assert forall|y: Seq<char>| !(#[trigger] r.present.contains(y) && r.absent.contains(y)) by {
        lemma_remove_all_contains(s.present, name, y);
    }
}

/// After recording a name as present, it is present and not absent; after
/// recording it as absent, it is absent and not present.
pub proof fn law_record_sets_intent(s: PackageSetView, name: Seq<char>)
    ensures
        s.with_present(name).present.contains(name),
        !s.with_present(name).absent.contains(name),
        s.with_absent(name).absent.contains(name),
        !s.with_absent(name).present.contains(name),
{
    lemma_insert_once_contains(s.present, name, name);
    lemma_insert_once_contains(s.absent, name, name);
    lemma_remove_all_contains(s.absent, name, name);
    lemma_remove_all_contains(s.present, name, name);
}

/// Recording the same name twice, as present or as absent, is the same as
/// recording it once.
pub proof fn law_record_idempotent(s: PackageSetView, name: Seq<char>)
    ensures
        s.with_present(name).with_present(name) == s.with_present(name),
        s.with_absent(name).with_absent(name) == s.with_absent(name),
{
    law_record_sets_intent(s, name);
    lemma_remove_all_absent(s.with_present(name).absent, name);
    lemma_remove_all_absent(s.with_absent(name).present, name);
}

/// A name recorded and then removed is no longer present, and is not absent
/// either: the backend no longer manages it.
pub proof fn law_remove_undoes_record(s: PackageSetView, name: Seq<char>)
    ensures
        !s.with_present(name).without_present(name).present.contains(name),
        !s.with_present(name).without_present(name).absent.contains(name),
{
    law_record_sets_intent(s, name);
    lemma_remove_all_contains(s.with_present(name).present, name, name);
}

proof fn lemma_first_unsupported_none(s: Seq<char>, i: int)
    requires
        first_unsupported(s) is None,
        0 <= i < s.len(),
    ensures
        allowed_name_char(s[i]),
    decreases s.len(),
{
    if i > 0 {
        assert(s.drop_first()[i - 1] == s[i]);
        lemma_first_unsupported_none(s.drop_first(), i - 1);
    }
}

/// A valid package name can be neither read as an option nor as a path: it
/// does not start with `-` and holds no `/`.
pub proof fn law_valid_name_is_not_option_or_path(name: Seq<char>)
    requires
        valid_package_name(name),
    ensures
        name.len() > 0,
        name[0] != '-',
        !name.contains('/'),
{
    if name.contains('/') {
        let i = choose|i: int| 0 <= i < name.len() && name[i] == '/';
        if i > 0 {
            assert(name.drop_first()[i - 1] == name[i]);
            lemma_first_unsupported_none(name.drop_first(), i - 1);
        }
    }
}

/// Recording a valid name, as present or as absent, or taking a name out of
/// `present`, keeps a well-formed manifest well-formed.
pub proof fn law_manifest_edits_keep_well_formed(m: ManifestView, kind: BackendKind, name: Seq<char>)
    requires
        m.well_formed(),
        valid_package_name(name),
    ensures
        m.with_set(kind, m.set(kind).with_present(name)).well_formed(),
        m.with_set(kind, m.set(kind).with_absent(name)).well_formed(),
        m.with_set(kind, m.set(kind).without_present(name)).well_formed(),
{
    law_record_keeps_well_formed(m.set(kind), name);
    law_record_absent_keeps_well_formed(m.set(kind), name);
    law_remove_keeps_well_formed(m.set(kind), name);
}

/// Changing one backend's entries leaves the other backend's entries and the
/// schema version as they were.
pub proof fn law_backends_independent(
    m: ManifestView,
    kind: BackendKind,
    other: BackendKind,
    s: PackageSetView,
)
    requires
        kind != other,
    ensures
        m.with_set(kind, s).set(other) == m.set(other),
        m.with_set(kind, s).set(kind) == s,
        m.with_set(kind, s).schema_version == m.schema_version,
{
}

} // verus!
