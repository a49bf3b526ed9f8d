use vstd::prelude::*;

use crate::text::{chars_of, split, split_spans, str_eq};

verus! {

broadcast use vstd::string::group_string_axioms;

/// The state of one package manager shim.
#[derive(Debug, Clone, PartialEq, Eq)]
pub struct ShimHealth {
    pub name: String,
    /// `/usr/local/bin/<name>` is a symlink to the saya binary.
    pub symlink_ok: bool,
    /// `/usr/bin/<name>` exists.
    pub real_binary_exists: bool,
}

/// The state of all shims and of `PATH`.
#[derive(Debug, Clone, PartialEq, Eq)]
pub struct DoctorReport {
    pub shims: Vec<ShimHealth>,
    /// `/usr/local/bin` comes before `/usr/bin` in `PATH`.
    pub path_local_bin_first: bool,
}

impl DoctorReport {
    pub open spec fn all_ok_spec(&self) -> bool {
        &&& self.path_local_bin_first
        &&& forall|i: int|
            0 <= i < self.shims.len() ==> (#[trigger] self.shims[i]).symlink_ok
                && self.shims[i].real_binary_exists
    }

    /// Every shim is linked and has its real program, and `PATH` finds the
    /// shims first.
    pub fn all_ok(&self) -> (b: bool)
        ensures
            b == self.all_ok_spec(),
    {
        if !self.path_local_bin_first {
            return false;
        }
        let mut i: usize = 0;
        while i < self.shims.len()
            invariant
                i <= self.shims.len(),
                forall|k: int|
                    0 <= k < i ==> (#[trigger] self.shims[k]).symlink_ok
                        && self.shims[k].real_binary_exists,
            decreases self.shims.len() - i,
        {
            if !(self.shims[i].symlink_ok && self.shims[i].real_binary_exists) {
                return false;
            }
            i = i + 1;
        }
        true
    }
}

/// Whether `PATH` lists `/usr/local/bin`, and lists it before any
/// `/usr/bin`.
pub open spec fn local_bin_first_spec(path_var: Seq<char>) -> bool {
    let dirs = split(path_var, ':');
    exists|i: int|
        0 <= i < dirs.len() && #[trigger] dirs[i] == "/usr/local/bin"@ && forall|j: int|
            0 <= j < i ==> #[trigger] dirs[j] != "/usr/bin"@
}

pub fn path_var_has_local_bin_first(path_var: &str) -> (b: bool)
    ensures
        b == local_bin_first_spec(path_var@),
{
    let v = chars_of(path_var);
    let spans = split_spans(&v, Some(':'));
    let ghost dirs = split(v@, ':');
    let mut i: usize = 0;
    while i < spans.len()
        invariant
            v@ == path_var@,
            dirs == split(v@, ':'),
            spans.len() == dirs.len(),
            i <= spans.len(),
            forall|k: int|
                #![trigger spans[k]]
                0 <= k < spans.len() ==> spans[k].0 <= spans[k].1 <= v.len() && v@.subrange(
                    spans[k].0 as int,
                    spans[k].1 as int,
                ) == dirs[k],
            forall|j: int| 0 <= j < i ==> dirs[j] != "/usr/bin"@ && dirs[j] != "/usr/local/bin"@,
        decreases spans.len() - i,
    {
        let (a, b) = spans[i];
        assert(v@.subrange(a as int, b as int) == dirs[i as int]);
        let dir = path_var.substring_char(a, b);
        if str_eq(dir, "/usr/local/bin") {
            return true;
        }
        if str_eq(dir, "/usr/bin") {
            assert forall|k: int| 0 <= k < dirs.len() && #[trigger] dirs[k] == "/usr/local/bin"@ implies !(forall|j: int|
                0 <= j < k ==> #[trigger] dirs[j] != "/usr/bin"@) by {
                assert(k > i);
                assert(dirs[i as int] == "/usr/bin"@);
            }
            return false;
        }
        i = i + 1;
    }
    false
}

} // verus!
