use ptr_plugins::arch::Arch;
use ptr_plugins::error::Error;
use ptr_plugins::release::{http_failure, is_current, release_url, request_headers, Header};

fn header(name: &str, value: &str) -> Header {
    Header { name: name.to_string(), value: value.to_string() }
}

#[test]
fn url_of_the_latest_release() {
    assert_eq!(
        release_url("owner/name", None),
        "https://api.github.com/repos/owner/name/releases/latest"
    );
}

#[test]
fn url_of_a_tagged_release() {
    assert_eq!(
        release_url("owner/name", Some("v1.2.0")),
        "https://api.github.com/repos/owner/name/releases/tags/v1.2.0"
    );
}

#[test]
fn headers_without_token() {
    assert_eq!(
        request_headers(None),
        vec![
            header("user-agent", "reqwest"),
            header("accept", "application/vnd.github+json"),
            header("X-GitHub-Api-Version", "2022-11-28"),
        ]
    );
}

#[test]
fn headers_with_token() {
    let headers = request_headers(Some("SECRET"));
    assert_eq!(headers.len(), 4);
    assert_eq!(headers[3], header("authorization", "Bearer SECRET"));
    assert_eq!(headers[..3], request_headers(None)[..]);
}

#[test]
fn refused_request_names_version_and_reason() {
    assert_eq!(
        http_failure(Some("v9"), Some("Not Found")),
        Error::HttpError("Failed to fetch v9: Not Found".to_string())
    );
    assert_eq!(
        http_failure(None, Some("Forbidden")),
        Error::HttpError("Failed to fetch latest: Forbidden".to_string())
    );
    assert_eq!(
        http_failure(None, None),
        Error::HttpError("Failed to fetch latest: Unknown".to_string())
    );
}

#[test]
fn current_version_short_circuit() {
    assert!(is_current("v1.0", Some("v1.0")));
    assert!(!is_current("v1.0", Some("v1.1")));
    assert!(!is_current("v1.0", Some("v1.0 ")));
    assert!(!is_current("v1.0", None));
    assert!(is_current("", Some("")));
}

#[test]
fn architecture_names() {
    assert_eq!(Arch::X64.token(), "x64");
    assert_eq!(Arch::ARM64.token(), "arm64");
    assert_eq!(Arch::X64.upper_token(), "X64");
    assert_eq!(Arch::ARM64.upper_token(), "ARM64");
    assert_eq!(Arch::from_machine("x86_64"), Some(Arch::X64));
    assert_eq!(Arch::from_machine("aarch64"), Some(Arch::ARM64));
    assert_eq!(Arch::from_machine("riscv64"), None);
    assert_eq!(Arch::from_machine(""), None);
}

#[test]
fn error_messages() {
    assert_eq!(Error::AlreadyExists.message(), "Plugin already exists");
    assert_eq!(Error::HttpError("a".to_string()).message(), "a");
    assert_eq!(Error::DecodeError("b".to_string()).message(), "b");
    assert_eq!(Error::NoMatchingAsset.message(), "No asset to select");
    assert_eq!(Error::InvalidSelection.message(), "Invalid index");
    assert_eq!(Error::InvalidPattern("x(".to_string()).message(), "Invalid regex pattern: 'x('");
    assert_eq!(Error::MalformedArchive.message(), "No .dll file found in zip");
    assert_eq!(Error::LockedFile("c".to_string()).message(), "c");
    assert_eq!(Error::ProcessError("d".to_string()).message(), "d");
    assert_eq!(Error::Transfer("e".to_string()).message(), "e");
    assert_eq!(Error::Unexpected.message(), "Unexpected event");
    let e = Error::LockedFile("c".to_string());
    assert_eq!(e.duplicate(), e);
}
