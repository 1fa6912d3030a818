//! The operating systems that the launcher runs on.
use vstd::prelude::*;
use crate::text::chars_of;

verus! {

#[derive(Debug, Clone, Copy, PartialEq, Eq, Structural)]
pub enum Platform {
    Linux,
    Windows,
}

/// The platform that an operating-system name (as Rust spells it) denotes.
pub open spec fn platform_of(os: Seq<char>) -> Option<Platform> {
    if os == "linux"@ {
        Some(Platform::Linux)
    } else if os == "windows"@ {
        Some(Platform::Windows)
    } else {
        None
    }
}

/// The platform that `os` names, or `None` for an unsupported one.
pub fn platform_from_os(os: &str) -> (r: Option<Platform>)
    ensures
        r == platform_of(os@),
{
    let v = chars_of(os);
    let linux = chars_of("linux");
    let windows = chars_of("windows");
    if same_chars(&v, &linux) {
        Some(Platform::Linux)
    } else if same_chars(&v, &windows) {
        Some(Platform::Windows)
    } else {
        None
    }
}

fn same_chars(a: &Vec<char>, b: &Vec<char>) -> (r: bool)
    ensures
        r == (a@ == b@),
{
    if a.len() != b.len() {
        return false;
    }
    let mut i: usize = 0;
    while i < a.len()
        invariant
            a@.len() == b@.len(),
            i <= a@.len(),
            forall|j: int| 0 <= j < i ==> a@[j] == b@[j],
        decreases a.len() - i,
    {
        if a[i] != b[i] {
            return false;
        }
        i = i + 1;
    }
    assert(a@ =~= b@);
    true
}

} // verus!
