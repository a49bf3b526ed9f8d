use vstd::prelude::*;

use crate::text::{chars_of, decimal_string, decimal_text};

verus! {

broadcast use vstd::string::group_string_axioms;

/// The user a command acts for: the one behind `sudo` when saya runs under
/// it, else the current user.
#[derive(Debug, Clone, PartialEq, Eq)]
pub struct InvocationUser {
    pub uid: u32,
    pub gid: u32,
    pub home: String,
    pub used_sudo: bool,
}

/// The value of the `SUDO_UID` environment variable.
#[derive(Debug, Clone, PartialEq, Eq)]
pub enum SudoUidVar {
    Unset,
    NotUnicode,
    Value(String),
}

/// Whose passwd entry to look up, and whether that user came from `sudo`.
#[derive(Debug, Clone, Copy, PartialEq, Eq)]
pub struct PasswdQuery {
    pub uid: u32,
    pub used_sudo: bool,
}

#[derive(Debug, Clone, PartialEq, Eq)]
pub enum PrivilegeError {
    /// The command needs root.
    NeedRoot,
    /// `SUDO_UID` is not valid Unicode.
    SudoUidNotUnicode,
    /// `SUDO_UID` is not a decimal `u32`.
    InvalidSudoUid(String),
    /// Switching to another user needs root.
    CannotSwitchUser { from: u32, to: u32 },
}

/// What `{}` writes for the error that `str::parse::<u32>` returns on `s`;
/// none when `s` parses.
pub uninterp spec fn u32_parse_error(s: Seq<char>) -> Option<Seq<char>>;

/// Parses `s` with `str::parse::<u32>` and, when that fails, writes its
/// `ParseIntError` with `{}`. The result is taken to be `u32_parse_error(s@)`:
/// it depends on the characters of `s` alone; which text std gives for which
/// failure is not stated here.
#[verifier::external_body]
fn u32_parse_error_text(s: &str) -> (r: Option<String>)
    ensures
        match r {
            Some(t) => u32_parse_error(s@) == Some(t@),
            None => u32_parse_error(s@) is None,
        },
{
    match s.parse::<u32>() {
        Ok(_) => None,
        Err(e) => Some(e.to_string()),
    }
}

impl PrivilegeError {
    /// The text that explains this refusal.
    pub open spec fn message_text(self) -> Seq<char> {
        match self {
            PrivilegeError::NeedRoot => "saya needs root; run with sudo"@,
            PrivilegeError::SudoUidNotUnicode => "SUDO_UID is not valid UTF-8"@,
            PrivilegeError::InvalidSudoUid(v) => "SUDO_UID is not a valid uid: "@ + v@ + match u32_parse_error(
                v@,
            ) {
                Some(reason) => ": "@ + reason,
                None => Seq::empty(),
            },
            PrivilegeError::CannotSwitchUser { from, to } => "cannot switch from uid "@
                + decimal_text(from as nat) + " to uid "@ + decimal_text(to as nat)
                + " without root"@,
        }
    }

    /// The message that explains this refusal. A `SUDO_UID` that is not a
    /// number is followed by `: ` and the reason `str::parse::<u32>` gives.
    pub fn message(&self) -> (r: String)
        ensures
            r@ == self.message_text(),
    {
        match self {
            PrivilegeError::NeedRoot => "saya needs root; run with sudo".to_string(),
            PrivilegeError::SudoUidNotUnicode => "SUDO_UID is not valid UTF-8".to_string(),
            PrivilegeError::InvalidSudoUid(v) => {
                let mut r = "SUDO_UID is not a valid uid: ".to_string();
                r.append(v.as_str());
                match u32_parse_error_text(v.as_str()) {
                    Some(reason) => {
                        r.append(": ");
                        r.append(reason.as_str());
                    },
                    None => {},
                }
                r
            },
            PrivilegeError::CannotSwitchUser { from, to } => {
                let mut r = "cannot switch from uid ".to_string();
                r.append(decimal_string(*from).as_str());
                r.append(" to uid ");
                r.append(decimal_string(*to).as_str());
                r.append(" without root");
                r
            },
        }
    }
}

pub open spec fn is_digit(c: char) -> bool {
    '0' as u32 <= c as u32 && c as u32 <= '9' as u32
}

pub open spec fn all_digits(s: Seq<char>) -> bool {
    forall|i: int| 0 <= i < s.len() ==> is_digit(#[trigger] s[i])
}

fn is_ascii_digit(c: char) -> (b: bool)
    ensures
        b == is_digit(c),
{
    '0' <= c && c <= '9'
}

/// The number that the decimal digits `s` write.
pub open spec fn decimal_value(s: Seq<char>) -> nat
    decreases s.len(),
{
    if s.len() == 0 {
        0
    } else {
        decimal_value(s.drop_last()) * 10 + (s.last() as u32 - '0' as u32) as nat
    }
}

/// What `u32::from_str` gives: an optional `+`, then one or more decimal
/// digits whose value fits in a `u32`.
pub open spec fn parse_u32_spec(s: Seq<char>) -> Option<u32> {
    let digits = if s.len() > 0 && s[0] == '+' {
        s.drop_first()
    } else {
        s
    };
    if digits.len() == 0 || !all_digits(digits) || decimal_value(digits) > u32::MAX {
        None
    } else {
        Some(decimal_value(digits) as u32)
    }
}

proof fn lemma_decimal_value_grows(s: Seq<char>, i: int)
    requires
        0 <= i <= s.len(),
    ensures
        decimal_value(s.take(i)) <= decimal_value(s),
    decreases s.len(),
{
    if i < s.len() {
        assert(s.drop_last().take(i) =~= s.take(i));
        lemma_decimal_value_grows(s.drop_last(), i);
    } else {
        assert(s.take(i) =~= s);
    }
}

/// Parses a decimal `u32` as `u32::from_str` does.
pub fn parse_u32(s: &str) -> (r: Option<u32>)
    ensures
        r == parse_u32_spec(s@),
{
    let v = chars_of(s);
    let start: usize = if v.len() > 0 && v[0] == '+' {
        1
    } else {
        0
    };
    let ghost digits = v@.skip(start as int);
    assert(digits =~= (if v@.len() > 0 && v@[0] == '+' {
        v@.drop_first()
    } else {
        v@
    }));
    if start == v.len() {
        return None;
    }
    let mut acc: u64 = 0;
    let mut i: usize = start;
    while i < v.len()
        invariant
            v@ == s@,
            start <= i <= v.len(),
            digits == v@.skip(start as int),
            digits == (if s@.len() > 0 && s@[0] == '+' {
                s@.drop_first()
            } else {
                s@
            }),
            all_digits(digits.take(i - start)),
            acc == decimal_value(digits.take(i - start)),
            acc <= u32::MAX,
        decreases v.len() - i,
    {
        let c = v[i];
        assert(digits[i - start] == c);
        if !is_ascii_digit(c) {
            assert(!is_digit(digits[i - start]));
            assert(!all_digits(digits));
            return None;
        }
        assert(digits.take(i + 1 - start).drop_last() =~= digits.take(i - start));
        assert(digits.take(i + 1 - start).last() == c);
        let d = (c as u32 - '0' as u32) as u64;
        acc = acc * 10 + d;
        assert(acc == decimal_value(digits.take(i + 1 - start)));
        assert(all_digits(digits.take(i + 1 - start))) by {
            assert forall|k: int| 0 <= k < i + 1 - start implies is_digit(
                #[trigger] digits.take(i + 1 - start)[k],
            ) by {
                if k < i - start {
                    assert(digits.take(i + 1 - start)[k] == digits.take(i - start)[k]);
                }
            }
        }
        if acc > u32::MAX as u64 {
            proof {
                lemma_decimal_value_grows(digits, i + 1 - start);
            }
            return None;
        }
        i = i + 1;
    }
    assert(digits.take(i - start) =~= digits);
    Some(acc as u32)
}

/// Whose passwd entry describes the invoking user: the `SUDO_UID` user when
/// saya runs as root with `SUDO_UID` set, else the current user. A
/// `SUDO_UID` that is not a decimal `u32` is an error; it is not looked at
/// when saya does not run as root.
pub fn resolve_invocation_user(euid: u32, sudo_uid: &SudoUidVar, current_uid: u32) -> (r: Result<
    PasswdQuery,
    PrivilegeError,
>)
    ensures
        euid != 0 ==> r == Ok::<PasswdQuery, PrivilegeError>(
            PasswdQuery { uid: current_uid, used_sudo: false },
        ),
        euid == 0 ==> match sudo_uid {
            SudoUidVar::Unset => r == Ok::<PasswdQuery, PrivilegeError>(
                PasswdQuery { uid: current_uid, used_sudo: false },
            ),
            SudoUidVar::NotUnicode => r == Err::<PasswdQuery, PrivilegeError>(
                PrivilegeError::SudoUidNotUnicode,
            ),
            SudoUidVar::Value(v) => match parse_u32_spec(v@) {
                Some(uid) => r == Ok::<PasswdQuery, PrivilegeError>(
                    PasswdQuery { uid, used_sudo: true },
                ),
                None => r matches Err(PrivilegeError::InvalidSudoUid(s)) && s@ == v@,
            },
        },
{
    if euid != 0 {
        return Ok(PasswdQuery { uid: current_uid, used_sudo: false });
    }
    match sudo_uid {
        SudoUidVar::Unset => Ok(PasswdQuery { uid: current_uid, used_sudo: false }),
        SudoUidVar::NotUnicode => Err(PrivilegeError::SudoUidNotUnicode),
        SudoUidVar::Value(v) => match parse_u32(v.as_str()) {
            Some(uid) => Ok(PasswdQuery { uid, used_sudo: true }),
            None => Err(PrivilegeError::InvalidSudoUid(v.clone())),
        },
    }
}

/// Commands that change the system need root.
pub fn require_root(euid: u32) -> (r: Result<(), PrivilegeError>)
    ensures
        euid == 0 <==> r is Ok,
        euid != 0 ==> r == Err::<(), PrivilegeError>(PrivilegeError::NeedRoot),
{
    if euid != 0 {
        Err(PrivilegeError::NeedRoot)
    } else {
        Ok(())
    }
}

/// Before files are written under the user's home: whether the process must
/// switch to `user` (it runs as someone else, and as root), or may go on as
/// it is (it already runs as `user`). Switching from another user than root
/// is refused.
pub fn plan_drop_to_user(euid: u32, egid: u32, user: &InvocationUser) -> (r: Result<
    bool,
    PrivilegeError,
>)
    ensures
        euid == user.uid && egid == user.gid ==> r == Ok::<bool, PrivilegeError>(false),
        !(euid == user.uid && egid == user.gid) && euid == 0 ==> r == Ok::<bool, PrivilegeError>(
            true,
        ),
        !(euid == user.uid && egid == user.gid) && euid != 0 ==> r == Err::<bool, PrivilegeError>(
            PrivilegeError::CannotSwitchUser { from: euid, to: user.uid },
        ),
{
    if euid == user.uid && egid == user.gid {
        return Ok(false);
    }
    if euid != 0 {
        return Err(PrivilegeError::CannotSwitchUser { from: euid, to: user.uid });
    }
    Ok(true)
}

} // verus!
