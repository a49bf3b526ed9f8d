use saya::backend::{
    check_backend_environment, detect_backend_from_os_release, install_invocation,
    installed_from_query, list_manual_invocation, parse_package_list, parse_showmanual,
    query_invocation, uninstall_invocations, unquote, update_invocation, upgrade_invocation,
    BackendError, BackendKind, Invocation,
};

fn strings(xs: &[&str]) -> Vec<String> {
    xs.iter().map(|s| s.to_string()).collect()
}

fn invocation(program: &str, args: &[&str]) -> Invocation {
    Invocation {
        program: program.to_string(),
        args: strings(args),
    }
}

#[test]
fn parses_showmanual_output() {
    let stdout = "git\nneovim\ncurl\n";
    assert_eq!(
        parse_showmanual(stdout),
        vec!["git".to_string(), "neovim".to_string(), "curl".to_string()]
    );
}

#[test]
fn parses_showmanual_ignores_blank_lines() {
    let stdout = "git\n\nneovim\n\n";
    assert_eq!(
        parse_showmanual(stdout),
        vec!["git".to_string(), "neovim".to_string()]
    );
}

#[test]
fn parses_empty_showmanual_output() {
    assert_eq!(parse_showmanual(""), Vec::<String>::new());
}

#[test]
fn parses_package_list() {
    assert_eq!(
        parse_package_list("git\nyay-bin\n\n"),
        vec!["git".to_string(), "yay-bin".to_string()]
    );
}

#[test]
fn parses_package_list_trims_lines() {
    assert_eq!(
        parse_package_list("  git \r\n\t\r\nyay-bin"),
        strings(&["git", "yay-bin"])
    );
}

#[test]
fn detects_debian() {
    let os_release = "ID=debian\nID_LIKE=\n";
    let backend = detect_backend_from_os_release(os_release).unwrap();
    assert_eq!(backend, BackendKind::Apt);
}

#[test]
fn detects_ubuntu_via_id_like() {
    let os_release = "ID=ubuntu\nID_LIKE=debian\n";
    let backend = detect_backend_from_os_release(os_release).unwrap();
    assert_eq!(backend, BackendKind::Apt);
}

#[test]
fn detects_arch() {
    let os_release = "ID=arch\n";
    let backend = detect_backend_from_os_release(os_release).unwrap();
    assert_eq!(backend, BackendKind::Yay);
}

#[test]
fn rejects_unknown_distro() {
    let os_release = "ID=fedora\n";
    assert!(detect_backend_from_os_release(os_release).is_err());
}

#[test]
fn detects_quoted_id_like_words() {
    let os_release = "NAME=\"Linux Mint\"\nID=linuxmint\nID_LIKE=\"ubuntu debian\"\n";
    assert_eq!(
        detect_backend_from_os_release(os_release),
        Ok(BackendKind::Apt)
    );
    let os_release = "ID=endeavouros\r\nID_LIKE=arch\r\n";
    assert_eq!(
        detect_backend_from_os_release(os_release),
        Ok(BackendKind::Yay)
    );
}

#[test]
fn unknown_distro_reports_id_and_id_like() {
    assert_eq!(
        detect_backend_from_os_release("ID=\"fedora\"\nID_LIKE=\"rhel centos\"\n"),
        Err(BackendError::UnsupportedDistro {
            id: "fedora".to_string(),
            id_like: "rhel centos".to_string()
        })
    );
    assert_eq!(
        detect_backend_from_os_release("ID_LIKE=archlinux\n"),
        Err(BackendError::UnsupportedDistro {
            id: String::new(),
            id_like: "archlinux".to_string()
        })
    );
}

#[test]
fn unquote_strips_whitespace_then_quotes() {
    assert_eq!(unquote("  \"ubuntu\" "), "ubuntu");
    assert_eq!(unquote("\"\"arch\""), "arch");
    assert_eq!(unquote("debian"), "debian");
}

#[test]
fn backend_environment_checks_yay() {
    assert_eq!(check_backend_environment(BackendKind::Apt, false, 0), Ok(()));
    assert_eq!(
        check_backend_environment(BackendKind::Yay, false, 1000),
        Err(BackendError::YayMissing)
    );
    assert_eq!(
        check_backend_environment(BackendKind::Yay, true, 0),
        Err(BackendError::YayAsRoot)
    );
    assert_eq!(check_backend_environment(BackendKind::Yay, true, 1000), Ok(()));
}

#[test]
fn reads_query_results() {
    assert_eq!(
        installed_from_query(BackendKind::Apt, true, Some(0), "install ok installed"),
        Some(true)
    );
    assert_eq!(
        installed_from_query(BackendKind::Apt, true, Some(0), "deinstall ok config-files"),
        Some(false)
    );
    assert_eq!(installed_from_query(BackendKind::Apt, false, Some(1), ""), Some(false));
    assert_eq!(installed_from_query(BackendKind::Apt, false, Some(2), ""), None);
    assert_eq!(installed_from_query(BackendKind::Yay, true, Some(0), ""), Some(true));
    assert_eq!(installed_from_query(BackendKind::Yay, false, Some(1), ""), Some(false));
    assert_eq!(installed_from_query(BackendKind::Yay, false, None, ""), None);
}

#[test]
fn install_passes_backend_args_before_separator() {
    let names = strings(&["neovim", "git"]);
    let args = strings(&["--config", "/tmp/yay.conf"]);
    assert_eq!(
        install_invocation(BackendKind::Yay, &names, &args),
        Some(invocation(
            "/usr/bin/yay",
            &["-S", "--noconfirm", "--config", "/tmp/yay.conf", "--", "neovim", "git"]
        ))
    );
    assert_eq!(
        install_invocation(BackendKind::Apt, &names, &Vec::new()),
        Some(invocation(
            "/usr/bin/sudo",
            &["/usr/bin/apt-get", "install", "-y", "--", "neovim", "git"]
        ))
    );
    assert_eq!(install_invocation(BackendKind::Apt, &Vec::new(), &args), None);
}

#[test]
fn uninstall_purges_and_autoremoves() {
    let names = strings(&["nano"]);
    assert_eq!(
        uninstall_invocations(BackendKind::Apt, &names),
        vec![
            invocation("/usr/bin/sudo", &["/usr/bin/apt-get", "remove", "--purge", "--", "nano"]),
            invocation("/usr/bin/sudo", &["/usr/bin/apt-get", "autoremove", "--purge"]),
        ]
    );
    assert_eq!(
        uninstall_invocations(BackendKind::Yay, &names),
        vec![invocation("/usr/bin/yay", &["-Rns", "--noconfirm", "--", "nano"])]
    );
    assert!(uninstall_invocations(BackendKind::Yay, &Vec::new()).is_empty());
}

#[test]
fn other_invocations() {
    assert_eq!(
        update_invocation(BackendKind::Apt),
        invocation("/usr/bin/sudo", &["/usr/bin/apt-get", "update"])
    );
    assert_eq!(update_invocation(BackendKind::Yay), invocation("/usr/bin/yay", &["-Sy"]));
    assert_eq!(
        upgrade_invocation(BackendKind::Apt),
        invocation("/usr/bin/sudo", &["/usr/bin/apt-get", "upgrade"])
    );
    assert_eq!(upgrade_invocation(BackendKind::Yay), invocation("/usr/bin/yay", &["-Syu"]));
    assert_eq!(
        query_invocation(BackendKind::Apt, "git"),
        invocation("/usr/bin/dpkg-query", &["-W", "-f=${Status}", "git"])
    );
    assert_eq!(
        query_invocation(BackendKind::Yay, "git"),
        invocation("/usr/bin/yay", &["-Q", "--", "git"])
    );
    assert_eq!(
        list_manual_invocation(BackendKind::Apt),
        invocation("/usr/bin/apt-mark", &["showmanual"])
    );
    assert_eq!(list_manual_invocation(BackendKind::Yay), invocation("/usr/bin/yay", &["-Qqe"]));
}

#[test]
fn backend_error_messages() {
    assert_eq!(
        BackendError::UnsupportedDistro {
            id: "fedora".to_string(),
            id_like: "".to_string()
        }
        .message(),
        "unsupported distro (ID=fedora, ID_LIKE=)"
    );
    assert_eq!(
        BackendError::YayMissing.message(),
        "yay is required on Arch-based systems but /usr/bin/yay was not found"
    );
    assert_eq!(
        BackendError::YayAsRoot.message(),
        "yay must not run as root; run saya without sudo"
    );
}
