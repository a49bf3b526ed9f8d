use vstd::prelude::*;

use crate::commands::PackageStatus;

verus! {

broadcast use vstd::string::group_string_axioms;

/// The word `saya status` shows for a name.
pub open spec fn mark_spec(desired_present: bool, installed: bool) -> Seq<char> {
    if desired_present && installed {
        "installed"@
    } else if desired_present {
        "missing"@
    } else if installed {
        "pending removal"@
    } else {
        "absent"@
    }
}

/// `installed`, `missing`, `pending removal` or `absent`, by what the
/// manifest wants and what is installed.
pub fn status_mark(desired_present: bool, installed: bool) -> (r: &'static str)
    ensures
        r@ == mark_spec(desired_present, installed),
{
    match (desired_present, installed) {
        (true, true) => "installed",
        (true, false) => "missing",
        (false, true) => "pending removal",
        (false, false) => "absent",
    }
}

/// `n` spaces.
pub open spec fn spaces(n: nat) -> Seq<char> {
    Seq::new(n, |i: int| ' ')
}

/// `s` followed by spaces up to `width` characters (`{:<width}`).
pub open spec fn pad_right(s: Seq<char>, width: nat) -> Seq<char> {
    if s.len() >= width {
        s
    } else {
        s + spaces((width - s.len()) as nat)
    }
}

/// The width that the name column is padded to.
pub const NAME_WIDTH: usize = 24;

/// One line of `saya status`: the name padded to 24 characters, a space, and
/// the mark.
pub fn status_line(status: &PackageStatus) -> (r: String)
    ensures
        r@ == pad_right(status.name@, NAME_WIDTH as nat) + " "@ + mark_spec(
            status.desired_present,
            status.installed,
        ),
{
    let n = status.name.as_str().unicode_len();
    let mut r = status.name.clone();
    let mut k = n;
    proof {
        reveal_strlit(" ");
    }
    while k < NAME_WIDTH
        invariant
            n == status.name@.len(),
            n <= k,
            k <= NAME_WIDTH || k == n,
            r@ == status.name@ + spaces((k - n) as nat),
        decreases NAME_WIDTH - k,
    {
        proof {
            reveal_strlit(" ");
        }
        r.append(" ");
        assert(r@ =~= status.name@ + spaces((k + 1 - n) as nat));
        k = k + 1;
    }
    assert(r@ =~= pad_right(status.name@, NAME_WIDTH as nat));
    r.append(" ");
    r.append(status_mark(status.desired_present, status.installed));
    r
}

} // verus!
