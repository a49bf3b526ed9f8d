use saya::capture::{path_var_has_local_bin_first, DoctorReport, ShimHealth};

#[test]
fn path_with_local_bin_first_is_ok() {
    assert!(path_var_has_local_bin_first("/usr/local/bin:/usr/bin:/bin"));
}

#[test]
fn path_with_local_bin_after_usr_bin_is_not_ok() {
    assert!(!path_var_has_local_bin_first("/usr/bin:/usr/local/bin"));
}

#[test]
fn path_missing_local_bin_is_not_ok() {
    assert!(!path_var_has_local_bin_first("/usr/bin:/bin"));
}

#[test]
fn path_with_only_local_bin_is_ok() {
    assert!(path_var_has_local_bin_first("/usr/local/bin"));
}

fn shim(symlink_ok: bool, real_binary_exists: bool) -> ShimHealth {
    ShimHealth {
        name: "apt".to_string(),
        symlink_ok,
        real_binary_exists,
    }
}

#[test]
fn doctor_report_all_ok_needs_every_check() {
    let good = DoctorReport {
        shims: vec![shim(true, true), shim(true, true)],
        path_local_bin_first: true,
    };
    assert!(good.all_ok());
    let bad_path = DoctorReport {
        shims: vec![shim(true, true)],
        path_local_bin_first: false,
    };
    assert!(!bad_path.all_ok());
    let bad_shim = DoctorReport {
        shims: vec![shim(true, true), shim(true, false)],
        path_local_bin_first: true,
    };
    assert!(!bad_shim.all_ok());
}
