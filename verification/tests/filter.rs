use pkg_sweep::filter::{find_non_existent_packages, package_exists_in_repos};
use pkg_sweep::inventory::InstalledPackageSet;
use pkg_sweep::outcome::RunResult;

fn found() -> RunResult {
    RunResult::Completed { success: true, stdout: "foo - a package\n".as_bytes().to_vec() }
}

fn nothing_found() -> RunResult {
    RunResult::Completed { success: true, stdout: Vec::new() }
}

fn search_failed() -> RunResult {
    RunResult::Completed { success: false, stdout: "error: no repositories\n".as_bytes().to_vec() }
}

fn not_started() -> RunResult {
    RunResult::SpawnFailed { reason: "No such file or directory (os error 2)".to_string() }
}

fn set_of(names: &[&str]) -> InstalledPackageSet {
    let mut set = InstalledPackageSet::new();
    for name in names {
        set.insert(name.to_string());
    }
    set
}

#[test]
fn a_package_exists_when_its_search_succeeds_and_prints_a_match() {
    assert!(package_exists_in_repos(&found()));
    assert!(package_exists_in_repos(&RunResult::Completed { success: true, stdout: vec![b'x'] }));
    assert!(package_exists_in_repos(&RunResult::Completed { success: true, stdout: vec![b'\n', b'\n', b'x'] }));
}

#[test]
fn a_package_does_not_exist_when_its_search_prints_nothing() {
    assert!(!package_exists_in_repos(&nothing_found()));
    assert!(!package_exists_in_repos(&RunResult::Completed { success: true, stdout: vec![b'\n', b'\n'] }));
}

#[test]
fn a_package_does_not_exist_when_its_search_fails() {
    assert!(!package_exists_in_repos(&search_failed()));
    assert!(!package_exists_in_repos(&RunResult::Completed { success: false, stdout: Vec::new() }));
}

#[test]
fn a_package_does_not_exist_when_its_search_cannot_start() {
    assert!(!package_exists_in_repos(&not_started()));
}

#[test]
fn foo_exists_and_bar_does_not() {
    let installed = set_of(&["foo", "bar"]);
    let missing = find_non_existent_packages(&installed, &vec![found(), search_failed()]);
    assert_eq!(missing, vec!["bar".to_string()]);
}

#[test]
fn nothing_is_missing_when_every_search_finds_its_package() {
    let installed = set_of(&["foo", "bar", "baz"]);
    let missing = find_non_existent_packages(&installed, &vec![found(), found(), found()]);
    assert!(missing.is_empty());
}

#[test]
fn each_package_without_a_match_is_reported_once() {
    let installed = set_of(&["a", "b", "b", "c", "a", "d"]);
    assert_eq!(installed.len(), 4);
    let results = vec![not_started(), found(), nothing_found(), search_failed()];
    let missing = find_non_existent_packages(&installed, &results);
    assert_eq!(missing, vec!["a".to_string(), "c".to_string(), "d".to_string()]);
    for name in ["a", "c", "d"] {
        assert_eq!(missing.iter().filter(|other| other.as_str() == name).count(), 1);
    }
    assert!(!missing.contains(&"b".to_string()));
}

#[test]
fn filtering_twice_gives_the_same_packages() {
    let installed = set_of(&["foo", "bar", "baz"]);
    let results = vec![found(), not_started(), nothing_found()];
    let first = find_non_existent_packages(&installed, &results);
    let second = find_non_existent_packages(&installed, &results);
    assert_eq!(first, second);
    assert_eq!(first, vec!["bar".to_string(), "baz".to_string()]);
}

#[test]
fn the_order_of_the_set_does_not_change_what_is_missing() {
    let forward = set_of(&["foo", "bar", "baz"]);
    let backward = set_of(&["baz", "bar", "foo"]);
    let mut first = find_non_existent_packages(&forward, &vec![found(), not_started(), nothing_found()]);
    let mut second = find_non_existent_packages(&backward, &vec![nothing_found(), not_started(), found()]);
    first.sort();
    second.sort();
    assert_eq!(first, second);
}

#[test]
fn nothing_installed_means_nothing_missing() {
    let installed = InstalledPackageSet::new();
    assert!(installed.is_empty());
    assert!(find_non_existent_packages(&installed, &Vec::new()).is_empty());
}

#[test]
fn a_set_holds_each_name_once() {
    let mut set = InstalledPackageSet::new();
    assert!(set.insert("foo".to_string()));
    assert!(set.insert("bar".to_string()));
    assert!(!set.insert("foo".to_string()));
    assert_eq!(set.len(), 2);
    assert!(set.contains("foo"));
    assert!(set.contains("bar"));
    assert!(!set.contains("fo"));
    assert_eq!(set.names(), &vec!["foo".to_string(), "bar".to_string()]);
}

#[test]
fn a_copy_of_a_set_holds_the_same_names() {
    let set = set_of(&["foo", "bar"]);
    let copy = set.clone();
    assert_eq!(copy.names(), set.names());
    assert_eq!(copy.len(), 2);
}
