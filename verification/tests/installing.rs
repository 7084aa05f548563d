use ptr_plugins::action::{Action, Event, Kind, Notice};
use ptr_plugins::arch::Arch;
use ptr_plugins::error::Error;
use ptr_plugins::extract::{ArchiveEntry, ExtractStep};
use ptr_plugins::install::{gh_dl, Install, Outcome, Progress, Request, Stage};
use ptr_plugins::registry::Plugin;
use ptr_plugins::release::{request_headers, Asset, ReleaseMetadata};

fn asset(name: &str) -> Asset {
    Asset { name: name.to_string(), download_url: format!("https://dl.invalid/{name}") }
}

fn release(tag: &str, names: &[&str]) -> ReleaseMetadata {
    ReleaseMetadata { tag: tag.to_string(), assets: names.iter().map(|n| asset(n)).collect() }
}

fn request(version: Option<&str>, current: Option<&str>, pattern: Option<&str>) -> Request {
    Request {
        name: "foo".to_string(),
        repo: "o/foo".to_string(),
        version: version.map(|s| s.to_string()),
        current: current.map(|s| s.to_string()),
        pattern: pattern.map(|s| s.to_string()),
        arch: Arch::X64,
        token: None,
    }
}

fn file(name: &str) -> ArchiveEntry {
    ArchiveEntry { name: name.to_string(), is_dir: false }
}

fn failed(install: &mut Install, event: Event, error: Error) {
    assert_eq!(install.step(event), Progress::Finished(Outcome::Failed(error)));
    assert_eq!(install.stage(), Stage::Over);
}

#[test]
fn begins_by_asking_for_the_release() {
    let (install, action) = Install::begin(request(None, None, None));
    assert_eq!(install.stage(), Stage::Resolving);
    assert_eq!(install.name(), "foo");
    assert_eq!(
        action,
        Action::Fetch {
            url: "https://api.github.com/repos/o/foo/releases/latest".to_string(),
            headers: request_headers(None),
        }
    );
    let (_, tagged) = gh_dl("foo", "o/foo", Some("v2"), &Arch::X64, None, None, Some("tok"));
    assert_eq!(
        tagged,
        Action::Fetch {
            url: "https://api.github.com/repos/o/foo/releases/tags/v2".to_string(),
            headers: request_headers(Some("tok")),
        }
    );
}

#[test]
fn installs_step_by_step() {
    let (mut install, _) = Install::begin(request(None, Some("v1"), None));
    let download = install.step(Event::Fetched(release("v2", &["foo-arm64.zip", "foo-x64.zip"])));
    assert_eq!(
        download,
        Progress::Perform(Action::Download {
            url: "https://dl.invalid/foo-x64.zip".to_string(),
            file: "foo-x64.zip".to_string(),
        })
    );
    assert_eq!(install.stage(), Stage::Downloading);
    assert_eq!(
        install.step(Event::Done),
        Progress::Perform(Action::ListArchive { file: "foo-x64.zip".to_string() })
    );
    let extract = install.step(Event::Entries(vec![file("w/foo.dll"), file("w/plugin.json")]));
    assert_eq!(
        extract,
        Progress::Perform(Action::Extract {
            file: "foo-x64.zip".to_string(),
            steps: vec![
                ExtractStep::WriteFile {
                    dir: "foo.staging".to_string(),
                    path: "foo.staging/foo.dll".to_string(),
                },
                ExtractStep::WriteFile {
                    dir: "foo.staging".to_string(),
                    path: "foo.staging/plugin.json".to_string(),
                },
            ],
        })
    );
    assert_eq!(
        install.step(Event::Done),
        Progress::Perform(Action::Promote {
            from: "foo.staging".to_string(),
            to: "foo".to_string(),
        })
    );
    assert_eq!(
        install.step(Event::Done),
        Progress::Perform(Action::RemoveFile { file: "foo-x64.zip".to_string() })
    );
    assert_eq!(install.stage(), Stage::Cleaning);
    assert_eq!(install.step(Event::Done), Progress::Finished(Outcome::Installed("v2".to_string())));
    assert_eq!(install.stage(), Stage::Over);
}

#[test]
fn recorded_release_is_not_installed_again() {
    let (mut install, _) = Install::begin(request(None, Some("v2"), None));
    assert_eq!(
        install.step(Event::Fetched(release("v2", &["foo-x64.zip"]))),
        Progress::Finished(Outcome::UpToDate("v2".to_string()))
    );
    assert_eq!(install.stage(), Stage::Over);
}

#[test]
fn refused_request_fails() {
    let (mut install, _) = Install::begin(request(Some("v9"), None, None));
    failed(
        &mut install,
        Event::Refused { reason: Some("Not Found".to_string()) },
        Error::HttpError("Failed to fetch v9: Not Found".to_string()),
    );
    let (mut latest, _) = Install::begin(request(None, None, None));
    failed(
        &mut latest,
        Event::Refused { reason: None },
        Error::HttpError("Failed to fetch latest: Unknown".to_string()),
    );
}

#[test]
fn undecodable_answer_fails() {
    let (mut install, _) = Install::begin(request(None, None, None));
    let error = Error::DecodeError("missing field `tag_name`".to_string());
    failed(&mut install, Event::Failed(error.clone()), error);
}

#[test]
fn user_chooses_where_nothing_matches() {
    let (mut install, _) = Install::begin(request(None, None, None));
    assert_eq!(
        install.step(Event::Fetched(release("v1", &["a.bin", "b.bin"]))),
        Progress::Perform(Action::Choose { names: vec!["a.bin".to_string(), "b.bin".to_string()] })
    );
    assert_eq!(install.stage(), Stage::Choosing);
    assert_eq!(
        install.step(Event::Answer("1".to_string())),
        Progress::Perform(Action::Download {
            url: "https://dl.invalid/b.bin".to_string(),
            file: "b.bin".to_string(),
        })
    );
}

#[test]
fn choice_out_of_range_fails() {
    let (mut install, _) = Install::begin(request(None, None, None));
    install.step(Event::Fetched(release("v1", &["a.bin", "b.bin"])));
    failed(&mut install, Event::Answer("5".to_string()), Error::InvalidSelection);
}

#[test]
fn pattern_picks_the_asset() {
    let (mut install, _) = Install::begin(request(None, None, Some("linux")));
    assert_eq!(
        install.step(Event::Fetched(release("v1", &["foo-x64.zip", "foo-linux.tar.gz"]))),
        Progress::Perform(Action::Download {
            url: "https://dl.invalid/foo-linux.tar.gz".to_string(),
            file: "foo-linux.tar.gz".to_string(),
        })
    );
}

#[test]
fn bad_pattern_and_empty_release_fail() {
    let (mut install, _) = Install::begin(request(None, None, Some("(")));
    failed(
        &mut install,
        Event::Fetched(release("v1", &["a.zip", "b.zip"])),
        Error::InvalidPattern("(".to_string()),
    );
    let (mut empty, _) = Install::begin(request(None, None, None));
    failed(&mut empty, Event::Fetched(release("v1", &[])), Error::NoMatchingAsset);
}

fn at_listing() -> Install {
    let (mut install, _) = Install::begin(request(None, None, None));
    install.step(Event::Fetched(release("v2", &["foo-x64.zip"])));
    install.step(Event::Done);
    assert_eq!(install.stage(), Stage::Listing);
    install
}

#[test]
fn archive_without_library_fails_before_anything_is_written() {
    let mut install = at_listing();
    failed(&mut install, Event::Entries(vec![file("w/readme.txt")]), Error::MalformedArchive);
}

#[test]
fn failed_extraction_discards_the_staging_directory() {
    let mut install = at_listing();
    install.step(Event::Entries(vec![file("foo.dll")]));
    assert_eq!(install.stage(), Stage::Extracting);
    let locked = Error::LockedFile("in use".to_string());
    assert_eq!(
        install.step(Event::Failed(locked.clone())),
        Progress::Perform(Action::Discard { dir: "foo.staging".to_string() })
    );
    assert_eq!(install.stage(), Stage::Discarding);
    failed(&mut install, Event::Failed(Error::Transfer("gone".to_string())), locked);
}

#[test]
fn failed_promotion_fails() {
    let mut install = at_listing();
    install.step(Event::Entries(vec![file("foo.dll")]));
    install.step(Event::Done);
    assert_eq!(install.stage(), Stage::Promoting);
    let locked = Error::LockedFile("in use".to_string());
    failed(&mut install, Event::Failed(locked.clone()), locked);
}

#[test]
fn leftover_archive_does_not_undo_the_installation() {
    let mut install = at_listing();
    install.step(Event::Entries(vec![file("foo.dll")]));
    install.step(Event::Done);
    install.step(Event::Done);
    assert_eq!(
        install.step(Event::Failed(Error::Transfer("denied".to_string()))),
        Progress::Finished(Outcome::Installed("v2".to_string()))
    );
}

#[test]
fn unexpected_reports_fail() {
    let (mut install, _) = Install::begin(request(None, None, None));
    failed(&mut install, Event::Done, Error::Unexpected);
    failed(&mut install, Event::Done, Error::Unexpected);
    let mut listing = at_listing();
    failed(&mut listing, Event::Answer("0".to_string()), Error::Unexpected);
}

#[test]
fn requests_of_a_plugin() {
    let plugin = Plugin {
        repo: "o/foo".to_string(),
        version: "v1".to_string(),
        pattern: Some("x64".to_string()),
    };
    let mut wanted = request(None, Some("v1"), Some("x64"));
    wanted.token = Some("t".to_string());
    assert_eq!(plugin.update("foo", &Arch::X64, Some("t")), wanted);
    wanted.version = Some("v3".to_string());
    assert_eq!(plugin.update_to("foo", &Arch::X64, "v3", Some("t")), wanted);
    wanted.version = Some("v1".to_string());
    wanted.current = None;
    assert_eq!(plugin.force_update("foo", &Arch::X64, Some("t")), wanted);
    assert_eq!(
        Plugin::add(
            "foo",
            "o/foo".to_string(),
            None,
            &Arch::X64,
            Some("x64".to_string()),
            None
        ),
        request(None, None, Some("x64"))
    );
    assert_eq!(Plugin::remove("foo"), Action::RemoveDir { name: "foo".to_string() });
}

#[test]
fn notices_as_lines() {
    let added = Notice::Added { name: "foo".to_string(), version: "v2".to_string() };
    assert_eq!(added.text(), "+ foo@v2");
    let same = Notice::UpToDate { name: "foo".to_string(), version: "v2".to_string() };
    assert_eq!(same.text(), "= foo@v2");
    assert_eq!(Notice::Removed { name: "foo".to_string() }.text(), "- foo");
    let failure = |kind| Notice::Failed {
        kind,
        name: "foo".to_string(),
        error: Error::InvalidSelection,
    };
    assert_eq!(failure(Kind::Add).text(), "error: Invalid index");
    assert_eq!(failure(Kind::Update).text(), "error: Failed to update foo: Invalid index");
    assert_eq!(failure(Kind::Import).text(), "error: Failed to import foo: Invalid index");
    assert_eq!(failure(Kind::Remove).text(), "error: Failed to remove foo: Invalid index");
    assert_eq!(Notice::Problem(Error::AlreadyExists).text(), "error: Plugin already exists");
}
