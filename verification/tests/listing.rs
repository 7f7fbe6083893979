use pkg_sweep::inventory::{get_installed_packages, parse_listing, InstalledPackageSet, ListingError};
use pkg_sweep::outcome::RunResult;

fn sorted(set: &InstalledPackageSet) -> Vec<String> {
    let mut names = set.names().clone();
    names.sort();
    names
}

#[test]
fn listing_keeps_one_name_per_line() {
    let set = parse_listing("foo\nbar\n");
    assert_eq!(set.len(), 2);
    assert_eq!(sorted(&set), vec!["bar".to_string(), "foo".to_string()]);
}

#[test]
fn listing_trims_and_drops_empty_lines() {
    let set = parse_listing("  foo \r\n\n \t \nbar\u{a0}\n\u{3000}baz qux\u{2003}");
    assert_eq!(set.names(), &vec!["foo".to_string(), "bar".to_string(), "baz qux".to_string()]);
    for name in set.names() {
        assert!(!name.trim().is_empty());
        assert_eq!(name.trim(), name.as_str());
    }
}

#[test]
fn listing_collapses_duplicates() {
    let set = parse_listing("foo\nbar\nfoo\n foo\n");
    assert_eq!(set.names(), &vec!["foo".to_string(), "bar".to_string()]);
    assert!(set.contains("foo"));
    assert!(!set.contains("baz"));
}

#[test]
fn listing_agrees_with_std_lines_and_trim() {
    let text = "a\r\nb\rc\n\u{85}d\u{1680}\n\u{2028}e\u{2029}\u{202f}\u{205f}\n\u{b}\u{c}f\n\u{200b}g\n";
    let set = parse_listing(text);
    let mut expected: Vec<String> = Vec::new();
    for line in text.lines() {
        let name = line.trim().to_string();
        if !name.is_empty() && !expected.contains(&name) {
            expected.push(name);
        }
    }
    assert_eq!(set.names(), &expected);
}

#[test]
fn listing_of_nothing_is_empty() {
    assert!(parse_listing("").is_empty());
    assert!(parse_listing("\n\n  \n").is_empty());
}

#[test]
fn listing_fails_when_the_command_cannot_start() {
    let result = RunResult::SpawnFailed { reason: "No such file or directory".to_string() };
    match get_installed_packages(&result) {
        Err(error) => assert_eq!(error, ListingError::SpawnFailed { reason: "No such file or directory".to_string() }),
        Ok(_) => panic!("a command that never ran lists nothing"),
    }
}

#[test]
fn listing_fails_on_bytes_that_are_no_text() {
    let result = RunResult::Completed { success: true, stdout: vec![b'f', b'o', 0xff, b'\n'] };
    match get_installed_packages(&result) {
        Err(error) => assert_eq!(error, ListingError::NotText),
        Ok(_) => panic!("bytes that are no text list nothing"),
    }
}

#[test]
fn listing_ignores_the_exit_status() {
    let result = RunResult::Completed { success: false, stdout: "foo\nbar\n".as_bytes().to_vec() };
    let set = get_installed_packages(&result).unwrap();
    assert_eq!(set.names(), &vec!["foo".to_string(), "bar".to_string()]);
}

#[test]
fn listing_decodes_text_beyond_ascii() {
    let result = RunResult::Completed { success: true, stdout: "libfoo-\u{e9}\n".as_bytes().to_vec() };
    let set = get_installed_packages(&result).unwrap();
    assert_eq!(set.names(), &vec!["libfoo-\u{e9}".to_string()]);
}
