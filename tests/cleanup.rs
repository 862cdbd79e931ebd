use cmvn::cleanup::{Action, CleanError, Cleanup, Event, Stage};
use cmvn::scan::is_marker;

fn entry(name: &str, parent: &str) -> Event {
    Event::Entry { name: String::from(name), parent: Some(String::from(parent)) }
}

fn started(silent: bool) -> Cleanup {
    Cleanup::open(String::from("/m2/repository"), true, silent).unwrap()
}

#[test]
fn marker_suffix_must_end_the_name() {
    assert!(is_marker("maven-metadata.xml.lastUpdated"));
    assert!(is_marker(".lastUpdated"));
    assert!(!is_marker("foo.lastUpdatedX"));
    assert!(!is_marker("lastUpdated"));
    assert!(!is_marker("foo.lastupdated"));
    assert!(!is_marker(""));
}

#[test]
fn missing_repository_is_refused() {
    let r = Cleanup::open(String::from("/nowhere/repository"), false, false);
    assert_eq!(r.err(), Some(CleanError::InvalidRepository(String::from("/nowhere/repository"))));
}

#[test]
fn existing_repository_starts_scanning() {
    let c = started(false);
    assert_eq!(c.stage(), Stage::Scanning);
    assert_eq!(c.removed_count(), 0);
    assert!(c.candidates().is_empty());
}

#[test]
fn single_failed_artifact_is_removed() {
    let mut c = started(false);
    assert_eq!(c.step(entry("repository", "/m2")), Action::Progress(String::from("repository")));
    c.step(entry("groupA", "repo"));
    c.step(entry("artifact1", "repo/groupA"));
    c.step(entry("1.0", "repo/groupA/artifact1"));
    let a = c.step(entry("maven-metadata.xml.lastUpdated", "repo/groupA/artifact1/1.0"));
    assert_eq!(a, Action::Progress(String::from("maven-metadata.xml.lastUpdated")));
    assert_eq!(c.candidates(), vec![String::from("repo/groupA/artifact1/1.0")]);
    assert_eq!(c.step(Event::WalkDone), Action::Prompt(1));
    assert_eq!(c.step(Event::LineRead), Action::Remove(String::from("repo/groupA/artifact1/1.0")));
    assert_eq!(c.step(Event::DirRemoved), Action::Finish(1));
    assert_eq!(c.removed_count(), 1);
    assert_eq!(c.stage(), Stage::Finished);
}

#[test]
fn near_miss_suffix_is_not_collected() {
    let mut c = started(false);
    c.step(entry("foo.lastUpdatedX", "repo/g/a/1.0"));
    assert!(c.candidates().is_empty());
    assert_eq!(c.step(Event::WalkDone), Action::Finish(0));
}

#[test]
fn no_markers_removes_nothing_either_mode() {
    for silent in [false, true] {
        let mut c = started(silent);
        c.step(entry("a.jar", "repo/g/a/1.0"));
        c.step(entry("a.pom", "repo/g/a/1.0"));
        assert_eq!(c.step(Event::WalkDone), Action::Finish(0));
        assert_eq!(c.removed_count(), 0);
        assert_eq!(c.stage(), Stage::Finished);
    }
}

#[test]
fn each_marker_directory_is_removed_once() {
    let dirs = ["repo/g/a/1.0", "repo/g/b/2.0", "repo/h/c/3.1"];
    let mut c = started(true);
    for d in dirs {
        c.step(entry("x.jar", d));
        c.step(entry("x.jar.lastUpdated", d));
    }
    let expected: Vec<String> = dirs.iter().map(|d| String::from(*d)).collect();
    assert_eq!(c.candidates(), expected);
    assert_eq!(c.step(Event::WalkDone), Action::Remove(String::from(dirs[0])));
    assert_eq!(c.step(Event::DirRemoved), Action::Remove(String::from(dirs[1])));
    assert_eq!(c.step(Event::DirRemoved), Action::Remove(String::from(dirs[2])));
    assert_eq!(c.step(Event::DirRemoved), Action::Finish(3));
    assert_eq!(c.removed_count(), 3);
}

#[test]
fn second_run_finds_nothing() {
    let mut first = started(true);
    first.step(entry("x.pom.lastUpdated", "repo/g/a/1.0"));
    first.step(entry("a.jar", "repo/g/b/1.0"));
    assert_eq!(first.step(Event::WalkDone), Action::Remove(String::from("repo/g/a/1.0")));
    assert_eq!(first.step(Event::DirRemoved), Action::Finish(1));
    let mut second = started(true);
    second.step(entry("a.jar", "repo/g/b/1.0"));
    assert_eq!(second.step(Event::WalkDone), Action::Finish(0));
    assert_eq!(second.removed_count(), 0);
}

#[test]
fn silent_mode_never_prompts() {
    let mut c = started(true);
    c.step(entry("m.lastUpdated", "repo/g/a/1.0"));
    assert_eq!(c.step(Event::WalkDone), Action::Remove(String::from("repo/g/a/1.0")));
    assert_eq!(c.stage(), Stage::Removing);
}

#[test]
fn prompt_waits_for_a_line() {
    let mut c = started(false);
    c.step(entry("m.lastUpdated", "repo/g/a/1.0"));
    c.step(entry("n.lastUpdated", "repo/g/b/1.0"));
    assert_eq!(c.step(Event::WalkDone), Action::Prompt(2));
    assert_eq!(c.step(Event::DirRemoved), Action::Wait);
    assert_eq!(c.step(Event::WalkDone), Action::Wait);
    assert_eq!(c.stage(), Stage::Confirming);
    assert_eq!(c.step(Event::LineRead), Action::Remove(String::from("repo/g/a/1.0")));
}

#[test]
fn unreadable_entries_are_skipped() {
    let mut c = started(true);
    assert_eq!(c.step(Event::EntryUnreadable), Action::Wait);
    c.step(entry("m.lastUpdated", "repo/g/a/1.0"));
    assert_eq!(c.step(Event::EntryUnreadable), Action::Wait);
    assert_eq!(c.candidates(), vec![String::from("repo/g/a/1.0")]);
}

#[test]
fn marker_without_parent_is_not_collected() {
    let mut c = started(true);
    c.step(Event::Entry { name: String::from("m.lastUpdated"), parent: None });
    assert!(c.candidates().is_empty());
}

#[test]
fn failed_input_stops_the_run() {
    let mut c = started(false);
    c.step(entry("m.lastUpdated", "repo/g/a/1.0"));
    c.step(Event::WalkDone);
    assert_eq!(c.step(Event::InputFailed), Action::Fail(CleanError::InputRead));
    assert_eq!(c.stage(), Stage::Failed);
    assert_eq!(c.step(Event::LineRead), Action::Wait);
    assert_eq!(c.removed_count(), 0);
}

#[test]
fn failed_removal_halts_the_rest() {
    let mut c = started(true);
    c.step(entry("m.lastUpdated", "repo/g/a/1.0"));
    c.step(entry("m.lastUpdated", "repo/g/b/1.0"));
    c.step(entry("m.lastUpdated", "repo/g/c/1.0"));
    c.step(Event::WalkDone);
    assert_eq!(c.step(Event::DirRemoved), Action::Remove(String::from("repo/g/b/1.0")));
    let a = c.step(Event::RemoveFailed);
    assert_eq!(a, Action::Fail(CleanError::Deletion(String::from("repo/g/b/1.0"))));
    assert_eq!(c.stage(), Stage::Failed);
    assert_eq!(c.removed_count(), 1);
    assert_eq!(c.step(Event::DirRemoved), Action::Wait);
}
