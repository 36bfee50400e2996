//! Driver archive names for Linux.
use vstd::prelude::*;
use super::Arch;

verus! {

broadcast use vstd::string::group_string_axioms;

/// The archive name of the driver `version` for Linux on `arch`.
pub open spec fn linux_archive(version: Seq<char>, arch: Arch) -> Option<Seq<char>> {
    match arch {
        Arch::Aarch64 => Some("geckodriver-"@ + version + "-linux-aarch64.tar.gz"@),
        Arch::X86 => Some("geckodriver-"@ + version + "-linux32.tar.gz"@),
        Arch::X86_64 => Some("geckodriver-"@ + version + "-linux64.tar.gz"@),
        Arch::Other => None,
    }
}

/// The archive name of the driver `version` for Linux on `arch`; `None` for
/// an architecture without a build.
pub fn path(version: &str, arch: Arch) -> (r: Option<String>)
    ensures
        r.deep_view() == linux_archive(version@, arch),
{
    let suffix = match arch {
        Arch::Aarch64 => "-linux-aarch64.tar.gz",
        Arch::X86 => "-linux32.tar.gz",
        Arch::X86_64 => "-linux64.tar.gz",
        Arch::Other => return None,
    };
    let mut s = String::from_str("geckodriver-");
    s.append(version);
    s.append(suffix);
    Some(s)
}

} // verus!
