//! Where the browser driver is downloaded from.
pub mod linux;
pub mod windows;

use vstd::prelude::*;
use self::linux::linux_archive;
use self::windows::windows_archive;

verus! {

broadcast use vstd::string::group_string_axioms;

/// The release description of the latest driver.
pub const LATEST_RELEASE_URL: &'static str = "https://api.github.com/repos/mozilla/geckodriver/releases/latest";

/// The user agent that the release description is asked with.
pub const USER_AGENT: &'static str = "CMSDL/1.0";

/// Where released driver archives are.
pub const RELEASE_DOWNLOAD_URL: &'static str = "https://github.com/mozilla/geckodriver/releases/download/";

/// The field of the release description that holds the version.
pub const TAG_FIELD: &'static str = "tag_name";

/// A processor architecture.
#[derive(Debug, Clone, Copy, PartialEq, Eq, Structural)]
pub enum Arch {
    Aarch64,
    X86,
    X86_64,
    Other,
}

/// An operating system.
#[derive(Debug, Clone, Copy, PartialEq, Eq, Structural)]
pub enum Os {
    Linux,
    Windows,
    Other,
}

fn same_text(a: &str, b: &str) -> (r: bool)
    ensures
        r == (a@ == b@),
{
    String::from_str(a) == String::from_str(b)
}

impl Arch {
    /// The architecture that Rust names `name` (`std::env::consts::ARCH`).
    pub fn from_name(name: &str) -> (a: Arch)
        ensures
            a == if name@ == "aarch64"@ {
                Arch::Aarch64
            } else if name@ == "x86"@ {
                Arch::X86
            } else if name@ == "x86_64"@ {
                Arch::X86_64
            } else {
                Arch::Other
            },
    {
        if same_text(name, "aarch64") {
            Arch::Aarch64
        } else if same_text(name, "x86") {
            Arch::X86
        } else if same_text(name, "x86_64") {
            Arch::X86_64
        } else {
            Arch::Other
        }
    }
}

impl Os {
    /// The system that Rust names `name` (`std::env::consts::OS`).
    pub fn from_name(name: &str) -> (o: Os)
        ensures
            o == if name@ == "linux"@ {
                Os::Linux
            } else if name@ == "windows"@ {
                Os::Windows
            } else {
                Os::Other
            },
    {
        if same_text(name, "linux") {
            Os::Linux
        } else if same_text(name, "windows") {
            Os::Windows
        } else {
            Os::Other
        }
    }
}

/// The archive name of the driver `version` for `os` on `arch`.
pub open spec fn archive_name(version: Seq<char>, os: Os, arch: Arch) -> Option<Seq<char>> {
    match os {
        Os::Linux => linux_archive(version, arch),
        Os::Windows => windows_archive(version, arch),
        Os::Other => None,
    }
}

/// The archive name of the driver `version` for `os` on `arch`; `None` where
/// no build exists.
pub fn filename_builder(version: String, os: Os, arch: Arch) -> (r: Option<String>)
    ensures
        r.deep_view() == archive_name(version@, os, arch),
{
    match os {
        Os::Linux => linux::path(version.as_str(), arch),
        Os::Windows => windows::path(version.as_str(), arch),
        Os::Other => None,
    }
}

/// The archive name of the latest driver, given its version.
pub fn filename(version: &str, os: Os, arch: Arch) -> (r: Option<String>)
    ensures
        r.deep_view() == archive_name(version@, os, arch),
{
    filename_builder(String::from_str(version), os, arch)
}

/// The address of the driver archive of `version` for `os` on `arch`.
pub open spec fn archive_url(version: Seq<char>, os: Os, arch: Arch) -> Option<Seq<char>> {
    match archive_name(version, os, arch) {
        Some(name) => Some(RELEASE_DOWNLOAD_URL@ + version + "/"@ + name),
        None => None,
    }
}

/// The address of the latest driver's archive, given its version.
pub fn get_url(version: &str, os: Os, arch: Arch) -> (r: Option<String>)
    ensures
        r.deep_view() == archive_url(version@, os, arch),
{
    let name = match filename(version, os, arch) {
        Some(n) => n,
        None => return None,
    };
    let mut u = String::from_str(RELEASE_DOWNLOAD_URL);
    u.append(version);
    u.append("/");
    u.append(name.as_str());
    Some(u)
}

/// The text of the string field `key` of the JSON object `text`; `None` when
/// `text` is no JSON, or not an object, or has no such string field.
pub uninterp spec fn json_string_field(text: Seq<char>, key: Seq<char>) -> Option<Seq<char>>;

/// `serde_json::from_str::<serde_json::Value>`, then `Value::get(key)` and
/// `Value::as_str`. Claimed: the result is `json_string_field` of the arguments.
#[verifier::external_body]
fn string_field(text: &str, key: &str) -> (r: Option<String>)
    ensures
        r.deep_view() == json_string_field(text@, key@),
{
    serde_json::from_str::<serde_json::Value>(text).ok().and_then(|v| v.get(key).and_then(|t| t.as_str().map(String::from)))
}

/// The driver version that the release description `text` names.
pub fn driver_version(text: &str) -> (r: Option<String>)
    ensures
        r.deep_view() == json_string_field(text@, TAG_FIELD@),
{
    string_field(text, TAG_FIELD)
}

} // verus!
