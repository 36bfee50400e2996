use cms_dl::fetcher::url::{driver_version, filename, filename_builder, get_url, linux, windows, Arch, Os};

#[test]
fn linux_archive_names() {
    assert_eq!(linux::path("v0.36.0", Arch::X86_64).as_deref(), Some("geckodriver-v0.36.0-linux64.tar.gz"));
    assert_eq!(linux::path("v0.36.0", Arch::X86).as_deref(), Some("geckodriver-v0.36.0-linux32.tar.gz"));
    assert_eq!(linux::path("v0.36.0", Arch::Aarch64).as_deref(), Some("geckodriver-v0.36.0-linux-aarch64.tar.gz"));
    assert_eq!(linux::path("v0.36.0", Arch::Other), None);
}

#[test]
fn windows_archive_names() {
    assert_eq!(windows::path("v1", Arch::X86_64).as_deref(), Some("geckodriver-v1-win64.zip"));
    assert_eq!(windows::path("v1", Arch::X86).as_deref(), Some("geckodriver-v1-win32.zip"));
    assert_eq!(windows::path("v1", Arch::Aarch64).as_deref(), Some("geckodriver-v1-win-aarch64.zip"));
    assert_eq!(windows::path("v1", Arch::Other), None);
}

#[test]
fn names_by_system() {
    assert_eq!(filename_builder("v2".to_string(), Os::Linux, Arch::X86_64).as_deref(), Some("geckodriver-v2-linux64.tar.gz"));
    assert_eq!(filename("v2", Os::Windows, Arch::X86).as_deref(), Some("geckodriver-v2-win32.zip"));
    assert_eq!(filename("v2", Os::Other, Arch::X86_64), None);
}

#[test]
fn archive_address() {
    assert_eq!(
        get_url("v0.36.0", Os::Linux, Arch::X86_64).as_deref(),
        Some("https://github.com/mozilla/geckodriver/releases/download/v0.36.0/geckodriver-v0.36.0-linux64.tar.gz")
    );
    assert_eq!(get_url("v0.36.0", Os::Linux, Arch::Other), None);
}

#[test]
fn system_names() {
    assert_eq!(Arch::from_name("x86_64"), Arch::X86_64);
    assert_eq!(Arch::from_name("x86"), Arch::X86);
    assert_eq!(Arch::from_name("aarch64"), Arch::Aarch64);
    assert_eq!(Arch::from_name("riscv64"), Arch::Other);
    assert_eq!(Os::from_name("linux"), Os::Linux);
    assert_eq!(Os::from_name("windows"), Os::Windows);
    assert_eq!(Os::from_name("macos"), Os::Other);
}

#[test]
fn version_from_release_description() {
    assert_eq!(driver_version(r#"{"tag_name": "v0.36.0", "id": 1}"#).as_deref(), Some("v0.36.0"));
    assert_eq!(driver_version(r#"{"tag_name": 5}"#), None);
    assert_eq!(driver_version(r#"["tag_name"]"#), None);
    assert_eq!(driver_version("not json"), None);
}
