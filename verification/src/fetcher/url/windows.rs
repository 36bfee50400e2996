//! Driver archive names for Windows.
use vstd::prelude::*;
use super::Arch;

verus! {

broadcast use vstd::string::group_string_axioms;

/// The archive name of the driver `version` for Windows on `arch`.
pub open spec fn windows_archive(version: Seq<char>, arch: Arch) -> Option<Seq<char>> {
    match arch {
        Arch::Aarch64 => Some("geckodriver-"@ + version + "-win-aarch64.zip"@),
        Arch::X86 => Some("geckodriver-"@ + version + "-win32.zip"@),
        Arch::X86_64 => Some("geckodriver-"@ + version + "-win64.zip"@),
        Arch::Other => None,
    }
}

/// The archive name of the driver `version` for Windows on `arch`; `None` for
/// an architecture without a build.
pub fn path(version: &str, arch: Arch) -> (r: Option<String>)
    ensures
        r.deep_view() == windows_archive(version@, arch),
{
    let suffix = match arch {
        Arch::Aarch64 => "-win-aarch64.zip",
        Arch::X86 => "-win32.zip",
        Arch::X86_64 => "-win64.zip",
        Arch::Other => return None,
    };
    let mut s = String::from_str("geckodriver-");
    s.append(version);
    s.append(suffix);
    Some(s)
}

} // verus!
