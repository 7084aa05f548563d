use ptr_plugins::action::{Action, Event, Kind, Notice};
use ptr_plugins::arch::Arch;
use ptr_plugins::config::Config;
use ptr_plugins::error::Error;
use ptr_plugins::extract::ArchiveEntry;
use ptr_plugins::host::{kill_ptr, start_ptr};
use ptr_plugins::registry::{Plugin, Record};
use ptr_plugins::release::{Asset, ReleaseMetadata};
use ptr_plugins::run::{Phase, Run, Step};

const HOST: &str = "C:/PowerToys/PowerToys.exe";

fn plugin(repo: &str, version: &str) -> Plugin {
    Plugin { repo: repo.to_string(), version: version.to_string(), pattern: None }
}

fn record(name: &str, repo: &str, version: &str) -> Record {
    Record { name: name.to_string(), plugin: plugin(repo, version) }
}

fn config(names: &[&str]) -> Config {
    let records: Vec<Record> =
        names.iter().map(|name| record(name, &format!("o/{name}"), "v1")).collect();
    Config::from_parts(Arch::X64, HOST.to_string(), true, false, None, None, &records)
}

fn strings(items: &[&str]) -> Vec<String> {
    items.iter().map(|s| s.to_string()).collect()
}

fn release(tag: &str) -> ReleaseMetadata {
    ReleaseMetadata {
        tag: tag.to_string(),
        assets: vec![Asset {
            name: "p-x64.zip".to_string(),
            download_url: "https://dl.invalid/p-x64.zip".to_string(),
        }],
    }
}

fn fetch(repo: &str, version: Option<&str>) -> Action {
    Action::Fetch {
        url: ptr_plugins::release::release_url(repo, version),
        headers: ptr_plugins::release::request_headers(None),
    }
}

fn quiet(action: Action) -> Step {
    Step { notices: Vec::new(), action }
}

fn with(notice: Notice, action: Action) -> Step {
    Step { notices: vec![notice], action }
}

/// Hands in the reports of an installation that goes well, from the
/// metadata to the removal of the archive, and gives the last step.
fn install(run: &mut Run, config: &mut Config, tag: &str) -> Step {
    let step = run.step(config, Event::Fetched(release(tag)));
    assert!(matches!(step.action, Action::Download { .. }));
    assert!(matches!(run.step(config, Event::Done).action, Action::ListArchive { .. }));
    let entries = vec![ArchiveEntry { name: "p.dll".to_string(), is_dir: false }];
    assert!(matches!(run.step(config, Event::Entries(entries)).action, Action::Extract { .. }));
    assert!(matches!(run.step(config, Event::Done).action, Action::Promote { .. }));
    assert!(matches!(run.step(config, Event::Done).action, Action::RemoveFile { .. }));
    run.step(config, Event::Done)
}

fn added(name: &str, version: &str) -> Notice {
    Notice::Added { name: name.to_string(), version: version.to_string() }
}

#[test]
fn add_installs_and_records() {
    let mut config = config(&[]);
    let (mut run, first) = config
        .add("foo", "o/foo".to_string(), None, Some("x64".to_string()), false)
        .unwrap();
    assert_eq!(first, Action::StopHost(kill_ptr(true)));
    assert_eq!(run.phase(), Phase::Stopping);
    assert_eq!(run.step(&mut config, Event::Done), quiet(fetch("o/foo", None)));
    assert_eq!(run.phase(), Phase::Installing);
    assert!(!config.contains("foo"));
    let step = install(&mut run, &mut config, "v3");
    assert_eq!(step, with(added("foo", "v3"), Action::StartHost(start_ptr(HOST))));
    assert_eq!(
        config.plugin("foo"),
        Some(&Plugin {
            repo: "o/foo".to_string(),
            version: "v3".to_string(),
            pattern: Some("x64".to_string()),
        })
    );
    assert_eq!(run.step(&mut config, Event::Done), quiet(Action::Save));
    assert_eq!(run.step(&mut config, Event::Done), quiet(Action::Finish { success: true }));
    assert_eq!(run.phase(), Phase::Finished);
    assert!(!run.failed());
    assert_eq!(run.step(&mut config, Event::Done), quiet(Action::Finish { success: true }));
}

#[test]
fn add_refuses_an_installed_name() {
    let config = config(&["foo"]);
    let refused = config.add("foo", "o/other".to_string(), None, None, false);
    assert_eq!(refused.err(), Some(Error::AlreadyExists));
    assert_eq!(config.plugin("foo"), Some(&plugin("o/foo", "v1")));
}

#[test]
fn add_of_a_name_installed_meanwhile_fails() {
    let mut config = config(&[]);
    let (mut run, _) = config.add("foo", "o/foo".to_string(), None, None, true).unwrap();
    let (mut first, _) = config.add("foo", "o/foo".to_string(), None, None, true).unwrap();
    first.step(&mut config, Event::Done);
    install(&mut first, &mut config, "v1");
    let step = run.step(&mut config, Event::Done);
    assert_eq!(
        step,
        with(
            Notice::Failed {
                kind: Kind::Add,
                name: "foo".to_string(),
                error: Error::AlreadyExists,
            },
            Action::Finish { success: false }
        )
    );
    assert_eq!(config.plugin("foo"), Some(&plugin("o/foo", "v1")));
}

#[test]
fn failed_add_restarts_the_host_and_saves_nothing() {
    let mut config = config(&[]);
    let (mut run, _) = config.add("foo", "o/foo".to_string(), Some("v9".to_string()), None, false).unwrap();
    assert_eq!(run.step(&mut config, Event::Done), quiet(fetch("o/foo", Some("v9"))));
    let step = run.step(&mut config, Event::Refused { reason: Some("Not Found".to_string()) });
    assert_eq!(
        step,
        with(
            Notice::Failed {
                kind: Kind::Add,
                name: "foo".to_string(),
                error: Error::HttpError("Failed to fetch v9: Not Found".to_string()),
            },
            Action::StartHost(start_ptr(HOST))
        )
    );
    assert!(!config.contains("foo"));
    assert_eq!(run.step(&mut config, Event::Done), quiet(Action::Finish { success: false }));
    assert!(run.failed());
}

#[test]
fn host_that_cannot_be_stopped_ends_the_command() {
    let mut config = config(&["a"]);
    let (mut run, _) = config.update(strings(&["a"]), None, false);
    let step = run.step(&mut config, Event::Failed(Error::Transfer("access denied".to_string())));
    assert_eq!(
        step,
        with(
            Notice::Problem(Error::ProcessError(
                "Failed to kill PowerToys: access denied".to_string()
            )),
            Action::Finish { success: false }
        )
    );
    assert_eq!(run.phase(), Phase::Finished);
    assert_eq!(config.plugin("a"), Some(&plugin("o/a", "v1")));
}

#[test]
fn update_twice_changes_nothing_the_second_time() {
    let mut config = config(&["a"]);
    let (mut run, _) = config.update(strings(&["a"]), None, true);
    assert_eq!(run.step(&mut config, Event::Done), quiet(fetch("o/a", None)));
    let step = install(&mut run, &mut config, "v2");
    assert_eq!(step, with(added("a", "v2"), Action::Save));
    assert_eq!(config.plugin("a"), Some(&plugin("o/a", "v2")));
    assert_eq!(run.step(&mut config, Event::Done), quiet(Action::Finish { success: true }));

    let before = config.plugins();
    let (mut again, _) = config.update(strings(&["a"]), None, true);
    assert_eq!(again.step(&mut config, Event::Done), quiet(fetch("o/a", None)));
    let step = again.step(&mut config, Event::Fetched(release("v2")));
    assert_eq!(
        step,
        with(
            Notice::UpToDate { name: "a".to_string(), version: "v2".to_string() },
            Action::Save
        )
    );
    assert_eq!(config.plugins(), before);
}

#[test]
fn update_pairs_names_with_versions() {
    let mut config = config(&["a", "b", "c"]);
    let (mut run, _) =
        config.update(strings(&["b", "x", "a", "c"]), Some(strings(&["v5", "v6", "v7"])), true);
    assert_eq!(run.step(&mut config, Event::Done), quiet(fetch("o/b", Some("v5"))));
    let step = install(&mut run, &mut config, "v5");
    assert_eq!(step, with(added("b", "v5"), fetch("o/a", Some("v7"))));
    let step = install(&mut run, &mut config, "v7");
    assert_eq!(step, with(added("a", "v7"), fetch("o/c", None)));
    let step = run.step(&mut config, Event::Fetched(release("v1")));
    assert_eq!(
        step,
        with(
            Notice::UpToDate { name: "c".to_string(), version: "v1".to_string() },
            Action::Save
        )
    );
    assert_eq!(
        config.plugins(),
        vec![record("a", "o/a", "v7"), record("b", "o/b", "v5"), record("c", "o/c", "v1")]
    );
}

#[test]
fn more_versions_than_names() {
    let mut config = config(&["a"]);
    let (mut run, _) = config.update(strings(&["a"]), Some(strings(&["v5", "v6"])), true);
    assert_eq!(run.step(&mut config, Event::Done), quiet(fetch("o/a", Some("v5"))));
}

#[test]
fn one_failed_update_does_not_stop_the_others() {
    let mut config = config(&["a", "b"]);
    let (mut run, _) = config.update(strings(&["a", "b"]), None, false);
    run.step(&mut config, Event::Done);
    let step = run.step(&mut config, Event::Refused { reason: None });
    assert_eq!(
        step,
        with(
            Notice::Failed {
                kind: Kind::Update,
                name: "a".to_string(),
                error: Error::HttpError("Failed to fetch latest: Unknown".to_string()),
            },
            fetch("o/b", None)
        )
    );
    let step = install(&mut run, &mut config, "v2");
    assert_eq!(step, with(added("b", "v2"), Action::StartHost(start_ptr(HOST))));
    let step = run.step(&mut config, Event::Failed(Error::Transfer("no such file".to_string())));
    assert_eq!(
        step,
        with(
            Notice::Problem(Error::ProcessError(
                "Failed to start PowerToys: no such file".to_string()
            )),
            Action::Save
        )
    );
    assert_eq!(run.step(&mut config, Event::Done), quiet(Action::Finish { success: true }));
    assert!(!run.failed());
    assert_eq!(config.plugins(), vec![record("a", "o/a", "v1"), record("b", "o/b", "v2")]);
}

#[test]
fn update_all_leaves_pinned_plugins_alone() {
    let mut config = config(&["c", "a", "b"]);
    config.pin_add(strings(&["b"]));
    let (mut run, _) = config.update_all(true);
    assert_eq!(run.step(&mut config, Event::Done), quiet(fetch("o/a", None)));
    let step = install(&mut run, &mut config, "v2");
    assert_eq!(step, with(added("a", "v2"), fetch("o/c", None)));
    let step = install(&mut run, &mut config, "v3");
    assert_eq!(step, with(added("c", "v3"), Action::Save));
    assert_eq!(config.plugin("b"), Some(&plugin("o/b", "v1")));
}

#[test]
fn remove_takes_plugins_out() {
    let mut config = config(&["a", "b"]);
    let (mut run, first) = config.remove(strings(&["x", "b", "b", "a"]), false);
    assert_eq!(first, Action::StopHost(kill_ptr(true)));
    let step = run.step(&mut config, Event::Done);
    assert_eq!(step, quiet(Action::RemoveDir { name: "b".to_string() }));
    assert_eq!(run.phase(), Phase::Removing);
    let step = run.step(&mut config, Event::Done);
    assert_eq!(
        step,
        with(Notice::Removed { name: "b".to_string() }, Action::RemoveDir { name: "a".to_string() })
    );
    assert!(!config.contains("b"));
    let locked = Error::LockedFile("in use".to_string());
    let step = run.step(&mut config, Event::Failed(locked.clone()));
    assert_eq!(
        step,
        with(
            Notice::Failed { kind: Kind::Remove, name: "a".to_string(), error: locked },
            Action::StartHost(start_ptr(HOST))
        )
    );
    assert!(config.contains("a"));
    assert_eq!(run.step(&mut config, Event::Done), quiet(Action::Save));
    assert_eq!(run.step(&mut config, Event::Done), quiet(Action::Finish { success: true }));
}

#[test]
fn import_installs_the_recorded_versions() {
    let mut config = config(&["b", "a"]);
    let (mut run, _) = config.import_plugins(true);
    assert_eq!(run.step(&mut config, Event::Done), quiet(fetch("o/a", Some("v1"))));
    let step = install(&mut run, &mut config, "v1");
    assert_eq!(step, with(added("a", "v1"), fetch("o/b", Some("v1"))));
    let step = install(&mut run, &mut config, "v1");
    assert_eq!(step, with(added("b", "v1"), Action::Save));
}

#[test]
fn import_ends_at_the_first_failure() {
    let mut config = config(&["a", "b"]);
    let (mut run, _) = config.import_plugins(false);
    run.step(&mut config, Event::Done);
    let step = run.step(&mut config, Event::Refused { reason: Some("Not Found".to_string()) });
    assert_eq!(
        step,
        with(
            Notice::Failed {
                kind: Kind::Import,
                name: "a".to_string(),
                error: Error::HttpError("Failed to fetch v1: Not Found".to_string()),
            },
            Action::StartHost(start_ptr(HOST))
        )
    );
    assert_eq!(run.step(&mut config, Event::Done), quiet(Action::Finish { success: false }));
}

#[test]
fn failed_save_fails_the_command() {
    let mut config = config(&[]);
    let (mut run, _) = config.update(Vec::new(), None, true);
    assert_eq!(run.step(&mut config, Event::Done), quiet(Action::Save));
    let error = Error::Transfer("disk full".to_string());
    assert_eq!(
        run.step(&mut config, Event::Failed(error.clone())),
        with(Notice::Problem(error), Action::Finish { success: false })
    );
    assert!(run.failed());
}

#[test]
fn configuration_can_opt_out_of_the_restart() {
    let mut config = Config::from_parts(
        Arch::X64,
        HOST.to_string(),
        false,
        true,
        None,
        None,
        &Vec::new(),
    );
    let (mut run, first) = config.remove(Vec::new(), false);
    assert_eq!(first, Action::StopHost(kill_ptr(false)));
    assert_eq!(run.step(&mut config, Event::Done), quiet(Action::Save));
}
