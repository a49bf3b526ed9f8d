use saya::backend::BackendKind;
use saya::cli::{parse_package_name, ImportArgs};
use saya::commands::import::{
    candidates_file_text, check_import_args, editor_command_from, import_candidates,
    import_selected, parse_edited_candidates, split_editor_command, ImportError,
};
use saya::commands::install::{plan_apply, record_installed};
use saya::commands::migrate::{migrate_previous, MigrateError, PreviousManifest};
use saya::commands::status::{status_line, status_mark};
use saya::commands::uninstall::record_uninstalled;
use saya::commands::{compute_status, manifest_path, status_names, PackageStatus};
use saya::manifest::{Manifest, ManifestError, PackageNameError, CURRENT_SCHEMA_VERSION};

fn strings(xs: &[&str]) -> Vec<String> {
    xs.iter().map(|s| s.to_string()).collect()
}

fn statuses_for(manifest: &Manifest, installed: &[&str]) -> Vec<PackageStatus> {
    let names = status_names(manifest, BackendKind::Apt);
    let flags: Vec<bool> = names
        .iter()
        .map(|n| installed.iter().any(|i| i == n))
        .collect();
    compute_status(manifest, BackendKind::Apt, &flags)
}

#[test]
fn editor_command_prefers_visual() {
    assert_eq!(
        editor_command_from(Some("code --wait".to_string()), Some("vim".to_string())),
        "code --wait"
    );
}

#[test]
fn editor_command_falls_back_to_editor() {
    assert_eq!(
        editor_command_from(None, Some("vim -f".to_string())),
        "vim -f"
    );
}

#[test]
fn editor_command_uses_vi_for_empty_env() {
    assert_eq!(editor_command_from(Some(" ".to_string()), None), "vi");
}

#[test]
fn editor_command_skips_blank_visual() {
    assert_eq!(
        editor_command_from(Some("\t".to_string()), Some("nano".to_string())),
        "nano"
    );
}

#[test]
fn splits_editor_command_into_program_and_args() {
    assert_eq!(
        split_editor_command("code  --wait -n"),
        ("code".to_string(), strings(&["--wait", "-n"]))
    );
    assert_eq!(split_editor_command("   "), ("vi".to_string(), Vec::new()));
}

#[test]
fn installs_only_missing_manifest_packages() {
    let mut manifest = Manifest::default();
    manifest.record("git", BackendKind::Apt);
    manifest.record("curl", BackendKind::Apt);
    let plan = plan_apply(&statuses_for(&manifest, &["git"]));
    assert_eq!(plan.install, strings(&["curl"]));
    assert!(plan.uninstall.is_empty());
}

#[test]
fn uninstalls_present_packages_recorded_absent() {
    let mut manifest = Manifest::default();
    manifest.record_absent("nano", BackendKind::Apt);
    manifest.record_absent("vim", BackendKind::Apt);
    let plan = plan_apply(&statuses_for(&manifest, &["nano"]));
    assert!(plan.install.is_empty());
    assert_eq!(plan.uninstall, strings(&["nano"]));
}

#[test]
fn apply_plan_is_empty_when_up_to_date() {
    let mut manifest = Manifest::default();
    manifest.record("git", BackendKind::Apt);
    manifest.record_absent("nano", BackendKind::Apt);
    let plan = plan_apply(&statuses_for(&manifest, &["git", "unmanaged"]));
    assert!(plan.is_empty());
}

#[test]
fn status_lists_present_then_absent() {
    let mut manifest = Manifest::default();
    manifest.record_absent("nano", BackendKind::Apt);
    manifest.record("git", BackendKind::Apt);
    manifest.record("neovim", BackendKind::Yay);
    let statuses = statuses_for(&manifest, &["nano"]);
    assert_eq!(
        statuses,
        vec![
            PackageStatus {
                name: "git".to_string(),
                desired_present: true,
                installed: false
            },
            PackageStatus {
                name: "nano".to_string(),
                desired_present: false,
                installed: true
            },
        ]
    );
}

#[test]
fn run_packages_installs_and_records_packages() {
    let mut manifest = Manifest::default();
    manifest.record_absent("neovim", BackendKind::Apt);
    let added = record_installed(
        &mut manifest,
        &strings(&["neovim", "git"]),
        BackendKind::Apt,
    );
    assert_eq!(added, strings(&["neovim", "git"]));
    assert_eq!(manifest.apt.present, vec!["neovim", "git"]);
    assert!(manifest.apt.absent.is_empty());
}

#[test]
fn run_packages_keeps_identical_manifest_unchanged() {
    let mut manifest = Manifest::default();
    manifest.record("neovim", BackendKind::Apt);
    let before = manifest.clone();
    let added = record_installed(&mut manifest, &strings(&["neovim"]), BackendKind::Apt);
    assert!(added.is_empty());
    assert_eq!(manifest, before);
}

#[test]
fn uninstalls_and_records_absent_for_current_backend_only() {
    let mut manifest = Manifest::default();
    manifest.record("neovim", BackendKind::Apt);
    manifest.record("git", BackendKind::Apt);
    manifest.record("neovim", BackendKind::Yay);
    let newly = record_uninstalled(
        &mut manifest,
        &strings(&["neovim", "git"]),
        BackendKind::Apt,
    );
    assert_eq!(newly, strings(&["neovim", "git"]));
    assert!(manifest.apt.present.is_empty());
    assert_eq!(manifest.apt.absent, vec!["neovim", "git"]);
    assert_eq!(manifest.yay.present, vec!["neovim"]);
}

#[test]
fn uninstalls_when_not_in_manifest() {
    let mut manifest = Manifest::default();
    record_uninstalled(
        &mut manifest,
        &strings(&["neovim", "git"]),
        BackendKind::Apt,
    );
    assert_eq!(manifest.apt.absent, vec!["neovim", "git"]);
}

#[test]
fn uninstall_of_absent_names_changes_nothing() {
    let mut manifest = Manifest::default();
    manifest.record_absent("nano", BackendKind::Yay);
    let before = manifest.clone();
    let newly = record_uninstalled(&mut manifest, &strings(&["nano"]), BackendKind::Yay);
    assert!(newly.is_empty());
    assert_eq!(manifest, before);
}

#[test]
fn install_after_uninstall_restores_present() {
    let mut manifest = Manifest::default();
    record_uninstalled(&mut manifest, &strings(&["git"]), BackendKind::Apt);
    record_installed(&mut manifest, &strings(&["git"]), BackendKind::Apt);
    assert_eq!(manifest.apt.present, strings(&["git"]));
    assert!(manifest.apt.absent.is_empty());
    assert_eq!(manifest.validate(), Ok(()));
}

#[test]
fn migrates_previous_manifest_in_place() {
    let manifest = migrate_previous(PreviousManifest {
        schema_version: 4,
        apt: strings(&["git"]),
        yay: strings(&["neovim"]),
    })
    .unwrap();
    assert_eq!(manifest.schema_version, CURRENT_SCHEMA_VERSION);
    assert_eq!(manifest.apt.present, vec!["git"]);
    assert_eq!(manifest.yay.present, vec!["neovim"]);
    assert!(manifest.apt.absent.is_empty() && manifest.yay.absent.is_empty());
}

#[test]
fn leaves_manifest_unchanged_when_schema_is_not_previous() {
    assert_eq!(
        migrate_previous(PreviousManifest {
            schema_version: 3,
            apt: strings(&["git"]),
            yay: Vec::new(),
        }),
        Err(MigrateError::NotPreviousSchema {
            found: 3,
            expected: 4
        })
    );
}

#[test]
fn migrate_rejects_invalid_names() {
    assert_eq!(
        migrate_previous(PreviousManifest {
            schema_version: 4,
            apt: strings(&["git", "-rf"]),
            yay: Vec::new(),
        }),
        Err(MigrateError::Invalid(ManifestError::InvalidPackageName {
            name: "-rf".to_string(),
            reason: PackageNameError::InvalidStart('-')
        }))
    );
}

#[test]
fn import_lists_only_unmanaged_packages() {
    let mut manifest = Manifest::default();
    manifest.record("git", BackendKind::Apt);
    manifest.record_absent("nano", BackendKind::Apt);
    manifest.record("curl", BackendKind::Yay);
    let listed = strings(&["git", "nano", "curl", "htop"]);
    assert_eq!(
        import_candidates(&listed, &manifest, BackendKind::Apt),
        strings(&["curl", "htop"])
    );
}

#[test]
fn import_requires_manual() {
    assert_eq!(
        check_import_args(&ImportArgs {
            manual: false,
            edit: true
        }),
        Err(ImportError::ManualRequired)
    );
    assert_eq!(
        check_import_args(&ImportArgs {
            manual: true,
            edit: false
        }),
        Ok(())
    );
}

#[test]
fn import_reads_edited_names() {
    assert_eq!(
        parse_edited_candidates("  git\n\nhtop \n"),
        Ok(strings(&["git", "htop"]))
    );
    assert_eq!(
        parse_edited_candidates("git\n# comment\nhtop\n"),
        Err(ImportError::InvalidEditedName {
            line: "# comment".to_string(),
            reason: PackageNameError::InvalidStart('#')
        })
    );
}

#[test]
fn import_records_new_names_once() {
    let mut manifest = Manifest::default();
    manifest.record("git", BackendKind::Yay);
    manifest.record_absent("nano", BackendKind::Yay);
    assert!(!import_selected(&mut manifest, &strings(&["git"]), BackendKind::Yay));
    assert!(import_selected(
        &mut manifest,
        &strings(&["htop", "nano", "htop"]),
        BackendKind::Yay
    ));
    assert_eq!(manifest.yay.present, strings(&["git", "htop", "nano"]));
    assert!(manifest.yay.absent.is_empty());
}

#[test]
fn candidates_file_has_one_name_per_line() {
    assert_eq!(
        candidates_file_text(&strings(&["git", "htop"])),
        "git\nhtop\n"
    );
    assert_eq!(candidates_file_text(&Vec::new()), "\n");
}

#[test]
fn manifest_path_is_under_config() {
    assert_eq!(
        manifest_path("/home/alice"),
        "/home/alice/.config/saya/packages.toml"
    );
    assert_eq!(manifest_path("/root/"), "/root/.config/saya/packages.toml");
    assert_eq!(manifest_path(""), ".config/saya/packages.toml");
}

#[test]
fn status_lines_pad_names() {
    assert_eq!(status_mark(true, true), "installed");
    assert_eq!(status_mark(true, false), "missing");
    assert_eq!(status_mark(false, true), "pending removal");
    assert_eq!(status_mark(false, false), "absent");
    let line = status_line(&PackageStatus {
        name: "git".to_string(),
        desired_present: true,
        installed: false,
    });
    assert_eq!(line, format!("{:<24} {}", "git", "missing"));
    let long = "a-very-long-package-name-indeed";
    let line = status_line(&PackageStatus {
        name: long.to_string(),
        desired_present: false,
        installed: false,
    });
    assert_eq!(line, format!("{long} absent"));
}

#[test]
fn cli_package_names_are_validated() {
    assert_eq!(parse_package_name("neovim"), Ok("neovim".to_string()));
    assert_eq!(
        parse_package_name("-C"),
        Err(PackageNameError::InvalidStart('-'))
    );
}

#[test]
fn import_error_messages() {
    assert_eq!(
        ImportError::ManualRequired.message(),
        "import currently only supports --manual"
    );
    assert_eq!(
        ImportError::InvalidEditedName {
            line: "bad\tname".to_string(),
            reason: PackageNameError::UnsupportedChar('\t')
        }
        .message(),
        "invalid package name from editor: \"bad\\tname\": package name contains unsupported character '\\t'"
    );
}

#[test]
fn migrate_error_messages() {
    assert_eq!(
        MigrateError::NotPreviousSchema {
            found: 3,
            expected: 4
        }
        .message(),
        "migrate reads manifest schema_version 4; found 3"
    );
    assert_eq!(
        MigrateError::Invalid(ManifestError::UnsupportedSchema {
            found: 12,
            expected: 5
        })
        .message(),
        "unsupported manifest schema_version 12; expected 5"
    );
}

#[test]
fn record_installed_settles_name_both_present_and_absent() {
    let mut manifest = Manifest::default();
    manifest.apt.present = strings(&["git"]);
    manifest.apt.absent = strings(&["git", "nano"]);
    let added = record_installed(&mut manifest, &strings(&["git"]), BackendKind::Apt);
    assert_eq!(added, strings(&["git"]));
    assert_eq!(manifest.apt.present, strings(&["git"]));
    assert_eq!(manifest.apt.absent, strings(&["nano"]));
}

#[test]
fn record_uninstalled_settles_name_both_present_and_absent() {
    let mut manifest = Manifest::default();
    manifest.yay.present = strings(&["git", "vim"]);
    manifest.yay.absent = strings(&["git"]);
    let newly = record_uninstalled(&mut manifest, &strings(&["git"]), BackendKind::Yay);
    assert_eq!(newly, strings(&["git"]));
    assert_eq!(manifest.yay.present, strings(&["vim"]));
    assert_eq!(manifest.yay.absent, strings(&["git"]));
}
