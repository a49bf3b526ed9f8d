use saya::backend::BackendKind;
use saya::manifest::Manifest;
use saya::shim::{is_plain_apt_package_name, parse_install_targets, record_targets, ShimKind};

fn args(s: &[&str]) -> Vec<String> {
    s.iter().map(|s| s.to_string()).collect()
}

#[test]
fn apt_install_records_plain_package_names() {
    let targets = parse_install_targets(BackendKind::Apt, &args(&["install", "git", "curl"]));
    assert_eq!(targets, vec!["git".to_string(), "curl".to_string()]);
}

#[test]
fn apt_install_excludes_leading_options() {
    let targets = parse_install_targets(BackendKind::Apt, &args(&["-y", "install", "git"]));
    assert_eq!(targets, vec!["git".to_string()]);
}

#[test]
fn apt_ignores_non_install_subcommands() {
    for subcommand in ["update", "upgrade", "remove", "autoremove", "purge"] {
        let targets = parse_install_targets(BackendKind::Apt, &args(&[subcommand, "git"]));
        assert!(targets.is_empty(), "expected empty for {subcommand}");
    }
}

#[test]
fn apt_install_excludes_deb_file() {
    let targets = parse_install_targets(BackendKind::Apt, &args(&["install", "./foo.deb"]));
    assert!(targets.is_empty());
}

#[test]
fn apt_install_excludes_url() {
    let targets = parse_install_targets(
        BackendKind::Apt,
        &args(&["install", "https://example.com/x.deb"]),
    );
    assert!(targets.is_empty());
}

#[test]
fn apt_install_excludes_pinned_version() {
    let targets = parse_install_targets(BackendKind::Apt, &args(&["install", "git=1.2.3"]));
    assert!(targets.is_empty());
}

#[test]
fn apt_install_excludes_path_with_slash() {
    let targets = parse_install_targets(BackendKind::Apt, &args(&["install", "ppa/git"]));
    assert!(targets.is_empty());
}

#[test]
fn apt_install_mixed_targets_keeps_only_plain_names() {
    let targets = parse_install_targets(
        BackendKind::Apt,
        &args(&["install", "git", "./foo.deb", "curl", "pkg=1.0"]),
    );
    assert_eq!(targets, vec!["git".to_string(), "curl".to_string()]);
}

#[test]
fn apt_install_with_no_subcommand_is_empty() {
    let targets = parse_install_targets(BackendKind::Apt, &args(&["-y"]));
    assert!(targets.is_empty());
}

#[test]
fn pacman_sync_with_package_records() {
    let targets = parse_install_targets(BackendKind::Yay, &args(&["-S", "foo"]));
    assert_eq!(targets, vec!["foo".to_string()]);
}

#[test]
fn pacman_syu_with_package_records() {
    let targets = parse_install_targets(BackendKind::Yay, &args(&["-Syu", "foo"]));
    assert_eq!(targets, vec!["foo".to_string()]);
}

#[test]
fn pacman_syu_alone_is_ignored() {
    let targets = parse_install_targets(BackendKind::Yay, &args(&["-Syu"]));
    assert!(targets.is_empty());
}

#[test]
fn pacman_remove_is_ignored() {
    let targets = parse_install_targets(BackendKind::Yay, &args(&["-R", "foo"]));
    assert!(targets.is_empty());
}

#[test]
fn pacman_clean_is_ignored() {
    let targets = parse_install_targets(BackendKind::Yay, &args(&["-Sc"]));
    assert!(targets.is_empty());
}

#[test]
fn pacman_long_remove_wins_over_sync() {
    let targets = parse_install_targets(BackendKind::Yay, &args(&["-S", "--remove", "foo"]));
    assert!(targets.is_empty());
    let targets = parse_install_targets(BackendKind::Yay, &args(&["--needed", "-S", "a", "b"]));
    assert_eq!(targets, args(&["a", "b"]));
}

#[test]
fn shim_kind_from_basename() {
    assert_eq!(ShimKind::from_basename("apt"), Some(ShimKind::Apt));
    assert_eq!(ShimKind::from_basename("apt-get"), Some(ShimKind::AptGet));
    assert_eq!(ShimKind::from_basename("pacman"), Some(ShimKind::Pacman));
    assert_eq!(ShimKind::from_basename("ls"), None);
}

#[test]
fn shim_kind_paths_and_backends() {
    assert_eq!(ShimKind::Apt.real_path(), "/usr/bin/apt");
    assert_eq!(ShimKind::AptGet.real_path(), "/usr/bin/apt-get");
    assert_eq!(ShimKind::Pacman.real_path(), "/usr/bin/pacman");
    assert_eq!(ShimKind::AptGet.backend_kind(), BackendKind::Apt);
    assert_eq!(ShimKind::Pacman.backend_kind(), BackendKind::Yay);
}

#[test]
fn plain_apt_names() {
    assert!(is_plain_apt_package_name("git"));
    assert!(!is_plain_apt_package_name("a://b"));
    assert!(!is_plain_apt_package_name("x.deb"));
}

#[test]
fn records_new_targets_only() {
    let mut manifest = Manifest::default();
    manifest.record("git", BackendKind::Apt);
    assert!(!record_targets(&mut manifest, BackendKind::Apt, &args(&["git"])));
    assert!(record_targets(&mut manifest, BackendKind::Apt, &args(&["git", "curl"])));
    assert_eq!(manifest.apt.present, args(&["git", "curl"]));
}
