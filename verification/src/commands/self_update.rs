use vstd::prelude::*;

use crate::text::{
    chars_of, line_spans, lines, seq_ends_with, split, split_spans, str_eq, trim_end_by,
};

verus! {

broadcast use vstd::string::group_string_axioms;

/// Why `saya self-update` stops.
#[derive(Debug, Clone, PartialEq, Eq)]
pub enum UpdateError {
    /// The redirect of `releases/latest` did not end in a release tag.
    UnresolvedTag,
    /// Release binaries exist for Linux only.
    UnsupportedOs(String),
    /// Release binaries exist for x86_64 and aarch64 only.
    UnsupportedArch(String),
    /// The downloaded archive holds a path that could leave the directory it
    /// is extracted into.
    UnsafeArchiveEntry(String),
}

impl UpdateError {
    /// The text that explains this refusal.
    pub open spec fn message_text(self) -> Seq<char> {
        match self {
            UpdateError::UnresolvedTag => "could not resolve latest release tag"@,
            UpdateError::UnsupportedOs(os) => "saya only supports Linux (got: "@ + os@ + ")"@,
            UpdateError::UnsupportedArch(arch) => "unsupported architecture: "@ + arch@,
            UpdateError::UnsafeArchiveEntry(entry) => "downloaded archive contains unsafe path: "@
                + entry@,
        }
    }

    /// The message that explains this refusal.
    pub fn message(&self) -> (r: String)
        ensures
            r@ == self.message_text(),
    {
        match self {
            UpdateError::UnresolvedTag => "could not resolve latest release tag".to_string(),
            UpdateError::UnsupportedOs(os) => {
                let mut r = "saya only supports Linux (got: ".to_string();
                r.append(os.as_str());
                r.append(")");
                r
            },
            UpdateError::UnsupportedArch(arch) => {
                let mut r = "unsupported architecture: ".to_string();
                r.append(arch.as_str());
                r
            },
            UpdateError::UnsafeArchiveEntry(entry) => {
                let mut r = "downloaded archive contains unsafe path: ".to_string();
                r.append(entry.as_str());
                r
            },
        }
    }
}

/// The last `/`-separated part of `url` once trailing slashes are taken off.
pub open spec fn url_tag(url: Seq<char>) -> Seq<char> {
    split(trim_end_by(url, Some('/')), '/').last()
}

/// The release tag from the URL that `releases/latest` redirects to: its
/// last path segment, which must be neither empty nor `latest`.
pub fn latest_tag_from_url(url: &str) -> (r: Result<String, UpdateError>)
    ensures
        (url_tag(url@).len() == 0 || url_tag(url@) == "latest"@) ==> r == Err::<String, UpdateError>(
            UpdateError::UnresolvedTag,
        ),
        !(url_tag(url@).len() == 0 || url_tag(url@) == "latest"@) ==> (r matches Ok(t) && t@
            == url_tag(url@)),
{
    let v = chars_of(url);
    let (a, b) = trim_end_bound(&v, Some('/'));
    let trimmed = url.substring_char(0, b);
    let w = chars_of(trimmed);
    let spans = split_spans(&w, Some('/'));
    proof {
        crate::text::lemma_split_nonempty(w@, Some('/'));
    }
    let (c, d) = spans[spans.len() - 1];
    assert(w@.subrange(c as int, d as int) == split(w@, '/')[spans.len() - 1]);
    let tag = trimmed.substring_char(c, d).to_string();
    if c == d || str_eq(tag.as_str(), "latest") {
        return Err(UpdateError::UnresolvedTag);
    }
    Ok(tag)
}

/// The end of what is left of `v` once trailing characters matching `pat`
/// are taken off.
fn trim_end_bound(v: &Vec<char>, pat: Option<char>) -> (r: (usize, usize))
    ensures
        r.0 == 0,
        r.1 <= v.len(),
        v@.subrange(0, r.1 as int) == trim_end_by(v@, pat),
{
    let mut b = v.len();
    assert(v@.subrange(0, b as int) =~= v@);
    while b > 0 && crate::text::matches_pattern(v[b - 1], pat)
        invariant
            b <= v.len(),
            trim_end_by(v@, pat) == trim_end_by(v@.subrange(0, b as int), pat),
        decreases b,
    {
        assert(v@.subrange(0, b as int).drop_last() =~= v@.subrange(0, b - 1));
        b = b - 1;
    }
    (0, b)
}

/// Whether an archive path could escape the extraction directory: empty,
/// absolute, `..`, ending in `/..`, or with a `..` segment.
pub open spec fn unsafe_entry_spec(e: Seq<char>) -> bool {
    ||| e.len() == 0
    ||| e[0] == '/'
    ||| e == ".."@
    ||| seq_ends_with(e, "/.."@)
    ||| split(e, '/').contains(".."@)
}

pub fn unsafe_archive_entry(entry: &str) -> (b: bool)
    ensures
        b == unsafe_entry_spec(entry@),
{
    let v = chars_of(entry);
    if v.len() == 0 || v[0] == '/' || str_eq(entry, "..") || crate::text::ends_with(entry, "/..") {
        return true;
    }
    let spans = split_spans(&v, Some('/'));
    let mut i: usize = 0;
    while i < spans.len()
        invariant
            v@ == entry@,
            i <= spans.len(),
            spans.len() == split(v@, '/').len(),
            forall|k: int|
                #![trigger spans[k]]
                0 <= k < spans.len() ==> spans[k].0 <= spans[k].1 <= v.len() && v@.subrange(
                    spans[k].0 as int,
                    spans[k].1 as int,
                ) == split(v@, '/')[k],
            forall|k: int| 0 <= k < i ==> split(v@, '/')[k] != ".."@,
        decreases spans.len() - i,
    {
        let (a, b) = spans[i];
        assert(v@.subrange(a as int, b as int) == split(v@, '/')[i as int]);
        let piece = entry.substring_char(a, b);
        if str_eq(piece, "..") {
            assert(split(v@, '/')[i as int] == ".."@);
            return true;
        }
        i = i + 1;
    }
    false
}

/// The first of `ls` that is unsafe as an archive path, if any.
pub open spec fn first_unsafe(ls: Seq<Seq<char>>) -> Option<Seq<char>>
    decreases ls.len(),
{
    if ls.len() == 0 {
        None
    } else if unsafe_entry_spec(ls[0]) {
        Some(ls[0])
    } else {
        first_unsafe(ls.drop_first())
    }
}

/// Checks an archive listing (`tar -tzf`), one path per line; the first
/// unsafe path is reported.
pub fn check_archive_listing(listing: &str) -> (r: Result<(), UpdateError>)
    ensures
        match first_unsafe(lines(listing@)) {
            None => r is Ok,
            Some(e) => r matches Err(UpdateError::UnsafeArchiveEntry(s)) && s@ == e,
        },
{
    let v = chars_of(listing);
    let spans = line_spans(&v);
    let ghost ls = lines(v@);
    let mut i: usize = 0;
    assert(ls.skip(0) =~= ls);
    while i < spans.len()
        invariant
            v@ == listing@,
            ls == lines(v@),
            spans.len() == ls.len(),
            i <= spans.len(),
            forall|k: int|
                #![trigger spans[k]]
                0 <= k < spans.len() ==> spans[k].0 <= spans[k].1 <= v.len() && v@.subrange(
                    spans[k].0 as int,
                    spans[k].1 as int,
                ) == ls[k],
            first_unsafe(ls) == first_unsafe(ls.skip(i as int)),
        decreases spans.len() - i,
    {
        let (a, b) = spans[i];
        assert(v@.subrange(a as int, b as int) == ls[i as int]);
        assert(ls.skip(i as int).drop_first() =~= ls.skip(i + 1));
        assert(ls.skip(i as int)[0] == ls[i as int]);
        let entry = listing.substring_char(a, b);
        if unsafe_archive_entry(entry) {
            return Err(UpdateError::UnsafeArchiveEntry(entry.to_string()));
        }
        i = i + 1;
    }
    assert(ls.skip(i as int).len() == 0);
    Ok(())
}

/// The release build target for an OS and a CPU architecture.
pub open spec fn target_spec(os: Seq<char>, arch: Seq<char>) -> Option<Seq<char>> {
    if os != "linux"@ {
        None
    } else if arch == "x86_64"@ {
        Some("x86_64-unknown-linux-musl"@)
    } else if arch == "aarch64"@ {
        Some("aarch64-unknown-linux-musl"@)
    } else {
        None
    }
}

/// The release build for this machine: musl builds for x86_64 and aarch64
/// Linux.
pub fn release_target(os: &str, arch: &str) -> (r: Result<String, UpdateError>)
    ensures
        os@ != "linux"@ ==> (r matches Err(UpdateError::UnsupportedOs(o)) && o@ == os@),
        match target_spec(os@, arch@) {
            Some(t) => r matches Ok(s) && s@ == t,
            None => r is Err,
        },
        os@ == "linux"@ && target_spec(os@, arch@) is None ==> (r matches Err(
            UpdateError::UnsupportedArch(a),
        ) && a@ == arch@),
{
    if !str_eq(os, "linux") {
        return Err(UpdateError::UnsupportedOs(os.to_string()));
    }
    if str_eq(arch, "x86_64") {
        return Ok("x86_64-unknown-linux-musl".to_string());
    }
    if str_eq(arch, "aarch64") {
        return Ok("aarch64-unknown-linux-musl".to_string());
    }
    Err(UpdateError::UnsupportedArch(arch.to_string()))
}

/// The files of one release on GitHub.
#[derive(Debug, Clone, PartialEq, Eq)]
pub struct ReleaseAsset {
    /// `saya-<version>-<target>.tar.gz`.
    pub archive: String,
    /// Where the archive is downloaded from.
    pub url: String,
    /// Where its SHA-256 checksum file is downloaded from.
    pub checksum_url: String,
}

pub open spec fn archive_spec(version: Seq<char>, target: Seq<char>) -> Seq<char> {
    "saya-"@ + version + "-"@ + target + ".tar.gz"@
}

pub open spec fn url_spec(version: Seq<char>, archive: Seq<char>) -> Seq<char> {
    "https://github.com/Stasshe/saya/releases/download/"@ + version + "/"@ + archive
}

/// The archive of release `version` for `target` and its download URLs.
pub fn release_asset(version: &str, target: &str) -> (r: ReleaseAsset)
    ensures
        r.archive@ == archive_spec(version@, target@),
        r.url@ == url_spec(version@, archive_spec(version@, target@)),
        r.checksum_url@ == url_spec(version@, archive_spec(version@, target@)) + ".sha256"@,
{
    let mut archive = "saya-".to_string();
    archive.append(version);
    archive.append("-");
    archive.append(target);
    archive.append(".tar.gz");
    let mut url = "https://github.com/Stasshe/saya/releases/download/".to_string();
    url.append(version);
    url.append("/");
    url.append(archive.as_str());
    let mut checksum_url = url.clone();
    checksum_url.append(".sha256");
    ReleaseAsset { archive, url, checksum_url }
}

// ---------------------------------------------------------------------------
// Installing the new binary
// ---------------------------------------------------------------------------

/// Which `install -m 755` run just finished.
#[derive(Debug, Clone, Copy, PartialEq, Eq, Structural)]
pub enum InstallRun {
    /// `/usr/bin/install` as the current user.
    Direct,
    /// `/usr/bin/install` through `/usr/bin/sudo`.
    Elevated,
}

/// What to do after an `install` run.
#[derive(Debug, Clone, Copy, PartialEq, Eq, Structural)]
pub enum InstallStep {
    /// Run it again through `sudo`.
    RunElevated,
    /// The binary is in place.
    Done,
    /// Report that `sudo install` failed.
    Failed,
}

pub open spec fn install_step_spec(run: InstallRun, succeeded: bool) -> InstallStep {
    if succeeded {
        InstallStep::Done
    } else {
        match run {
            InstallRun::Direct => InstallStep::RunElevated,
            InstallRun::Elevated => InstallStep::Failed,
        }
    }
}

/// The binary is installed directly first; only when that fails is it
/// installed through `sudo`, and only that second failure is reported.
pub fn install_step(run: InstallRun, succeeded: bool) -> (r: InstallStep)
    ensures
        r == install_step_spec(run, succeeded),
{
    if succeeded {
        InstallStep::Done
    } else {
        match run {
            InstallRun::Direct => InstallStep::RunElevated,
            InstallRun::Elevated => InstallStep::Failed,
        }
    }
}

} // verus!
