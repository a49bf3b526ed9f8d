use saya::backend::BackendKind;
use saya::manifest::{
    validate_package_name, Manifest, ManifestError, PackageNameError, CURRENT_SCHEMA_VERSION,
};

fn strings(xs: &[&str]) -> Vec<String> {
    xs.iter().map(|s| s.to_string()).collect()
}

#[test]
fn record_is_idempotent() {
    let mut manifest = Manifest::default();
    manifest.record("git", BackendKind::Apt);
    manifest.record("git", BackendKind::Apt);
    assert_eq!(manifest.apt.present, vec!["git".to_string()]);
}

#[test]
fn record_keeps_backends_independent() {
    let mut manifest = Manifest::default();
    manifest.record("neovim", BackendKind::Apt);
    assert!(manifest.contains("neovim", BackendKind::Apt));
    assert!(!manifest.contains("neovim", BackendKind::Yay));
}

#[test]
fn remove_removes_only_from_matching_backend() {
    let mut manifest = Manifest::default();
    manifest.record("neovim", BackendKind::Apt);
    manifest.record("neovim", BackendKind::Yay);

    assert!(manifest.remove("neovim", BackendKind::Apt));
    assert!(!manifest.contains("neovim", BackendKind::Apt));
    assert!(manifest.contains("neovim", BackendKind::Yay));
}

#[test]
fn remove_returns_false_when_absent() {
    let mut manifest = Manifest::default();
    assert!(!manifest.remove("neovim", BackendKind::Apt));
}

#[test]
fn validate_package_name_rejects_option_like_name() {
    assert!(validate_package_name("--download-only").is_err());
}

#[test]
fn validate_package_name_rejects_path_like_name() {
    assert!(validate_package_name("foo/bar").is_err());
}

#[test]
fn validate_package_name_accepts_common_package_names() {
    assert!(validate_package_name("libssl-dev:amd64").is_ok());
    assert!(validate_package_name("python-pynvim").is_ok());
    assert!(validate_package_name("mingw-w64-gcc").is_ok());
}

#[test]
fn default_manifest_is_empty_and_current() {
    let manifest = Manifest::default();
    assert_eq!(manifest.schema_version, CURRENT_SCHEMA_VERSION);
    assert!(manifest.apt.present.is_empty() && manifest.apt.absent.is_empty());
    assert!(manifest.yay.present.is_empty() && manifest.yay.absent.is_empty());
    assert_eq!(manifest.validate(), Ok(()));
}

#[test]
fn validate_package_name_reports_each_reason() {
    assert_eq!(validate_package_name(""), Err(PackageNameError::Empty));
    assert_eq!(
        validate_package_name("-x"),
        Err(PackageNameError::InvalidStart('-'))
    );
    assert_eq!(
        validate_package_name("foo/bar"),
        Err(PackageNameError::UnsupportedChar('/'))
    );
    assert_eq!(
        validate_package_name("a b/c"),
        Err(PackageNameError::UnsupportedChar(' '))
    );
    assert_eq!(validate_package_name("g++"), Ok(()));
    assert_eq!(validate_package_name("9base"), Ok(()));
}

#[test]
fn record_moves_name_out_of_absent() {
    let mut manifest = Manifest::default();
    manifest.record_absent("nano", BackendKind::Apt);
    assert!(manifest.is_absent("nano", BackendKind::Apt));
    manifest.record("nano", BackendKind::Apt);
    assert!(manifest.contains("nano", BackendKind::Apt));
    assert!(!manifest.is_absent("nano", BackendKind::Apt));
    manifest.record_absent("nano", BackendKind::Apt);
    assert_eq!(manifest.apt.present, Vec::<String>::new());
    assert_eq!(manifest.apt.absent, strings(&["nano"]));
}

#[test]
fn record_keeps_manifest_order() {
    let mut manifest = Manifest::default();
    manifest.record("neovim", BackendKind::Yay);
    manifest.record("git", BackendKind::Yay);
    manifest.record("neovim", BackendKind::Yay);
    assert_eq!(manifest.yay.present, strings(&["neovim", "git"]));
    assert_eq!(manifest.names(BackendKind::Yay), &strings(&["neovim", "git"]));
    assert!(manifest.names(BackendKind::Apt).is_empty());
}

#[test]
fn remove_then_record_absent_is_unmanaged_when_removed() {
    let mut manifest = Manifest::default();
    manifest.record("git", BackendKind::Apt);
    assert!(manifest.remove("git", BackendKind::Apt));
    assert!(!manifest.contains("git", BackendKind::Apt));
    assert!(!manifest.is_absent("git", BackendKind::Apt));
}

#[test]
fn validate_rejects_unsupported_schema() {
    let mut manifest = Manifest::default();
    manifest.schema_version = 999;
    assert_eq!(
        manifest.validate(),
        Err(ManifestError::UnsupportedSchema {
            found: 999,
            expected: 5
        })
    );
}

#[test]
fn validate_rejects_invalid_name() {
    let mut manifest = Manifest::default();
    manifest.yay.absent.push("bad name".to_string());
    assert_eq!(
        manifest.validate(),
        Err(ManifestError::InvalidPackageName {
            name: "bad name".to_string(),
            reason: PackageNameError::UnsupportedChar(' ')
        })
    );
}

#[test]
fn validate_rejects_name_both_present_and_absent() {
    let mut manifest = Manifest::default();
    manifest.yay.present.push("nano".to_string());
    manifest.yay.absent.push("nano".to_string());
    assert_eq!(
        manifest.validate(),
        Err(ManifestError::PresentAndAbsent {
            kind: BackendKind::Yay,
            name: "nano".to_string()
        })
    );
    manifest.yay.absent.clear();
    manifest.apt.absent.push("nano".to_string());
    assert_eq!(manifest.validate(), Ok(()));
}

#[test]
fn validate_reports_first_invalid_name_in_list_order() {
    let mut manifest = Manifest::default();
    manifest.yay.present.push("-later".to_string());
    manifest.apt.absent.push("ok".to_string());
    manifest.apt.absent.push("first bad".to_string());
    manifest.apt.present.push("fine".to_string());
    assert_eq!(
        manifest.validate(),
        Err(ManifestError::InvalidPackageName {
            name: "first bad".to_string(),
            reason: PackageNameError::UnsupportedChar(' ')
        })
    );
}

#[test]
fn validate_reports_first_clash_apt_before_yay() {
    let mut manifest = Manifest::default();
    manifest.yay.present = strings(&["a"]);
    manifest.yay.absent = strings(&["a"]);
    manifest.apt.present = strings(&["x", "b", "c"]);
    manifest.apt.absent = strings(&["c", "b"]);
    assert_eq!(
        manifest.validate(),
        Err(ManifestError::PresentAndAbsent {
            kind: BackendKind::Apt,
            name: "b".to_string()
        })
    );
    manifest.apt.absent.clear();
    assert_eq!(
        manifest.validate(),
        Err(ManifestError::PresentAndAbsent {
            kind: BackendKind::Yay,
            name: "a".to_string()
        })
    );
}

#[test]
fn package_name_error_messages() {
    assert_eq!(
        PackageNameError::Empty.message(),
        "package name cannot be empty"
    );
    assert_eq!(
        PackageNameError::InvalidStart('-').message(),
        "package name must start with an ASCII letter or digit"
    );
    assert_eq!(
        PackageNameError::UnsupportedChar(' ').message(),
        "package name contains unsupported character ' '"
    );
    assert_eq!(
        PackageNameError::UnsupportedChar('\'').message(),
        "package name contains unsupported character '\\''"
    );
}

#[test]
fn manifest_error_messages() {
    assert_eq!(
        ManifestError::UnsupportedSchema {
            found: 999,
            expected: CURRENT_SCHEMA_VERSION
        }
        .message(),
        "unsupported manifest schema_version 999; expected 5"
    );
    assert_eq!(
        ManifestError::UnsupportedSchema {
            found: 0,
            expected: 4294967295
        }
        .message(),
        "unsupported manifest schema_version 0; expected 4294967295"
    );
    assert_eq!(
        ManifestError::InvalidPackageName {
            name: "bad name".to_string(),
            reason: PackageNameError::UnsupportedChar(' ')
        }
        .message(),
        "invalid package name \"bad name\": package name contains unsupported character ' '"
    );
    assert_eq!(
        ManifestError::PresentAndAbsent {
            kind: BackendKind::Yay,
            name: "na\"no".to_string()
        }
        .message(),
        "\"na\\\"no\" is listed as both present and absent for yay"
    );
}
