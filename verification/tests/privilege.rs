use saya::privilege::{
    parse_u32, plan_drop_to_user, require_root, resolve_invocation_user, InvocationUser,
    PasswdQuery, PrivilegeError, SudoUidVar,
};

fn user(uid: u32, gid: u32) -> InvocationUser {
    InvocationUser {
        uid,
        gid,
        home: "/home/u".to_string(),
        used_sudo: true,
    }
}

#[test]
fn parses_uids_like_from_str() {
    assert_eq!(parse_u32("1000"), Some(1000));
    assert_eq!(parse_u32("+7"), Some(7));
    assert_eq!(parse_u32("4294967295"), Some(u32::MAX));
    assert_eq!(parse_u32("4294967296"), None);
    assert_eq!(parse_u32("99999999999x"), None);
    assert_eq!(parse_u32(""), None);
    assert_eq!(parse_u32("+"), None);
    assert_eq!(parse_u32("-1"), None);
    assert_eq!(parse_u32("12a"), None);
    for s in ["0", "42", "007", "+3000000000"] {
        assert_eq!(parse_u32(s), s.parse::<u32>().ok());
    }
}

#[test]
fn sudo_uid_is_used_only_as_root() {
    let var = SudoUidVar::Value("1000".to_string());
    assert_eq!(
        resolve_invocation_user(0, &var, 0),
        Ok(PasswdQuery {
            uid: 1000,
            used_sudo: true
        })
    );
    assert_eq!(
        resolve_invocation_user(1000, &var, 1000),
        Ok(PasswdQuery {
            uid: 1000,
            used_sudo: false
        })
    );
    assert_eq!(
        resolve_invocation_user(0, &SudoUidVar::Unset, 0),
        Ok(PasswdQuery {
            uid: 0,
            used_sudo: false
        })
    );
    assert_eq!(
        resolve_invocation_user(0, &SudoUidVar::NotUnicode, 0),
        Err(PrivilegeError::SudoUidNotUnicode)
    );
    assert_eq!(
        resolve_invocation_user(0, &SudoUidVar::Value("abc".to_string()), 0),
        Err(PrivilegeError::InvalidSudoUid("abc".to_string()))
    );
}

#[test]
fn dropping_privileges() {
    assert_eq!(plan_drop_to_user(1000, 1000, &user(1000, 1000)), Ok(false));
    assert_eq!(plan_drop_to_user(0, 0, &user(1000, 1000)), Ok(true));
    assert_eq!(
        plan_drop_to_user(1001, 1001, &user(1000, 1000)),
        Err(PrivilegeError::CannotSwitchUser {
            from: 1001,
            to: 1000
        })
    );
    assert_eq!(require_root(0), Ok(()));
    assert_eq!(require_root(1000), Err(PrivilegeError::NeedRoot));
}

#[test]
fn privilege_error_messages() {
    assert_eq!(PrivilegeError::NeedRoot.message(), "saya needs root; run with sudo");
    assert_eq!(
        PrivilegeError::SudoUidNotUnicode.message(),
        "SUDO_UID is not valid UTF-8"
    );
    assert_eq!(
        PrivilegeError::InvalidSudoUid("12x".to_string()).message(),
        "SUDO_UID is not a valid uid: 12x: invalid digit found in string"
    );
    assert_eq!(
        PrivilegeError::InvalidSudoUid("".to_string()).message(),
        "SUDO_UID is not a valid uid: : cannot parse integer from empty string"
    );
    assert_eq!(
        PrivilegeError::InvalidSudoUid("4294967296".to_string()).message(),
        "SUDO_UID is not a valid uid: 4294967296: number too large to fit in target type"
    );
    assert_eq!(
        PrivilegeError::InvalidSudoUid("abc".to_string()).message(),
        format!(
            "SUDO_UID is not a valid uid: abc: {}",
            "abc".parse::<u32>().unwrap_err()
        )
    );
    assert_eq!(
        PrivilegeError::CannotSwitchUser { from: 1000, to: 0 }.message(),
        "cannot switch from uid 1000 to uid 0 without root"
    );
}
