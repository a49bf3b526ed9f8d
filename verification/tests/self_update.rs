use saya::commands::self_update::{
    check_archive_listing, install_step, latest_tag_from_url, release_asset, release_target,
    unsafe_archive_entry, InstallRun, InstallStep, UpdateError,
};

#[test]
fn parses_latest_tag_from_url() {
    assert_eq!(
        latest_tag_from_url("https://github.com/Stasshe/saya/releases/tag/v0.5.0").unwrap(),
        "v0.5.0"
    );
}

#[test]
fn rejects_unresolved_latest_tag() {
    assert!(latest_tag_from_url("https://github.com/Stasshe/saya/releases/latest").is_err());
}

#[test]
fn detects_unsafe_archive_entries() {
    assert!(unsafe_archive_entry("/saya"));
    assert!(unsafe_archive_entry("../saya"));
    assert!(unsafe_archive_entry("dir/../saya"));
    assert!(unsafe_archive_entry("dir/.."));
    assert!(!unsafe_archive_entry("saya"));
    assert!(!unsafe_archive_entry("dir/saya"));
}

#[test]
fn latest_tag_ignores_trailing_slashes() {
    assert_eq!(
        latest_tag_from_url("https://github.com/Stasshe/saya/releases/tag/v1.2.3//"),
        Ok("v1.2.3".to_string())
    );
    assert_eq!(latest_tag_from_url("///"), Err(UpdateError::UnresolvedTag));
    assert_eq!(latest_tag_from_url("v2"), Ok("v2".to_string()));
}

#[test]
fn archive_listing_reports_first_unsafe_entry() {
    assert_eq!(check_archive_listing("saya\nREADME.md\n"), Ok(()));
    assert_eq!(
        check_archive_listing("saya\n../etc/passwd\n/abs\n"),
        Err(UpdateError::UnsafeArchiveEntry("../etc/passwd".to_string()))
    );
    assert_eq!(
        check_archive_listing("saya\n\nother\n"),
        Err(UpdateError::UnsafeArchiveEntry(String::new()))
    );
}

#[test]
fn release_targets() {
    assert_eq!(
        release_target("linux", "x86_64"),
        Ok("x86_64-unknown-linux-musl".to_string())
    );
    assert_eq!(
        release_target("linux", "aarch64"),
        Ok("aarch64-unknown-linux-musl".to_string())
    );
    assert_eq!(
        release_target("macos", "aarch64"),
        Err(UpdateError::UnsupportedOs("macos".to_string()))
    );
    assert_eq!(
        release_target("linux", "riscv64"),
        Err(UpdateError::UnsupportedArch("riscv64".to_string()))
    );
}

#[test]
fn release_asset_urls() {
    let asset = release_asset("v0.5.0", "x86_64-unknown-linux-musl");
    assert_eq!(asset.archive, "saya-v0.5.0-x86_64-unknown-linux-musl.tar.gz");
    assert_eq!(
        asset.url,
        "https://github.com/Stasshe/saya/releases/download/v0.5.0/saya-v0.5.0-x86_64-unknown-linux-musl.tar.gz"
    );
    assert_eq!(asset.checksum_url, format!("{}.sha256", asset.url));
}

#[test]
fn update_error_messages() {
    assert_eq!(
        UpdateError::UnresolvedTag.message(),
        "could not resolve latest release tag"
    );
    assert_eq!(
        UpdateError::UnsupportedOs("macos".to_string()).message(),
        "saya only supports Linux (got: macos)"
    );
    assert_eq!(
        UpdateError::UnsupportedArch("riscv64".to_string()).message(),
        "unsupported architecture: riscv64"
    );
    assert_eq!(
        UpdateError::UnsafeArchiveEntry("../evil".to_string()).message(),
        "downloaded archive contains unsafe path: ../evil"
    );
}

#[test]
fn install_falls_back_to_sudo_only_after_direct_failure() {
    assert_eq!(install_step(InstallRun::Direct, true), InstallStep::Done);
    assert_eq!(install_step(InstallRun::Direct, false), InstallStep::RunElevated);
    assert_eq!(install_step(InstallRun::Elevated, true), InstallStep::Done);
    assert_eq!(install_step(InstallRun::Elevated, false), InstallStep::Failed);
}
