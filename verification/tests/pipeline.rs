use pkg_sweep::command::{existence_check_command, listing_command, removal_command, version_check_command};
use pkg_sweep::inventory::ListingError;
use pkg_sweep::manager::PackageManagerKind;
use pkg_sweep::outcome::RunResult;
use pkg_sweep::pipeline::{Action, Pipeline, Step};
use pkg_sweep::remove::OperationOutcome;
use pkg_sweep::report::Notice;

fn ok(output: &str) -> RunResult {
    RunResult::Completed { success: true, stdout: output.as_bytes().to_vec() }
}

fn failed() -> RunResult {
    RunResult::Completed { success: false, stdout: Vec::new() }
}

fn not_started(reason: &str) -> RunResult {
    RunResult::SpawnFailed { reason: reason.to_string() }
}

fn run(kind: PackageManagerKind) -> impl Fn(&str) -> Action {
    move |package| Action::Run { command: removal_command(kind, package) }
}

/// Feeds the results to a fresh run and returns every step it took.
fn drive(results: &[RunResult]) -> (Pipeline, Vec<Step>) {
    let (mut pipeline, first) = Pipeline::start();
    let mut steps = vec![first];
    for result in results {
        let (next, step) = pipeline.advance(result);
        pipeline = next;
        steps.push(step);
    }
    (pipeline, steps)
}

#[test]
fn a_run_begins_with_the_banner_and_the_first_probe() {
    let (pipeline, step) = Pipeline::start();
    assert!(!pipeline.is_done());
    assert_eq!(step.notices, vec![Notice::Banner]);
    assert_eq!(step.action, Action::Run { command: version_check_command(PackageManagerKind::Apt) });
}

#[test]
fn foo_stays_and_bar_is_removed() {
    let apt = PackageManagerKind::Apt;
    let (pipeline, steps) = drive(&[
        ok("apt 2.4.5 (amd64)\n"),
        ok("foo\nbar\n"),
        ok("foo - a package\n"),
        failed(),
        ok("Removing bar ...\n"),
    ]);
    assert!(pipeline.is_done());
    assert_eq!(steps.len(), 6);
    assert_eq!(steps[1].notices, vec![Notice::Detected { kind: apt }]);
    assert_eq!(steps[1].action, Action::Run { command: listing_command(apt) });
    assert_eq!(steps[2].notices, vec![Notice::InstalledCount { count: 2 }]);
    assert_eq!(steps[2].action, Action::Run { command: existence_check_command(apt, "foo") });
    assert!(steps[3].notices.is_empty());
    assert_eq!(steps[3].action, Action::Run { command: existence_check_command(apt, "bar") });
    assert_eq!(
        steps[4].notices,
        vec![Notice::MissingFound { names: vec!["bar".to_string()] }, Notice::RemovalStarts]
    );
    assert_eq!(steps[4].action, run(apt)("bar"));
    assert_eq!(
        steps[5].notices,
        vec![
            Notice::Removal { package: "bar".to_string(), outcome: OperationOutcome::Uninstalled },
            Notice::Completed,
        ]
    );
    assert_eq!(steps[5].action, Action::Stop);

    let removals = steps.iter().filter(|step| {
        matches!(&step.action, Action::Run { command } if command.program == "sudo")
    }).count();
    assert_eq!(removals, 1);
    let reports = steps.iter().flat_map(|step| step.notices.iter()).filter(|notice| {
        matches!(notice, Notice::Removal { .. })
    }).count();
    assert_eq!(reports, 1);
}

#[test]
fn without_a_detected_manager_the_run_goes_on_with_apt() {
    let (pipeline, steps) = drive(&[
        failed(),
        not_started("No such file or directory (os error 2)"),
        failed(),
        failed(),
        not_started("No such file or directory (os error 2)"),
    ]);
    assert!(!pipeline.is_done());
    assert_eq!(steps.len(), 6);
    let probed = [
        PackageManagerKind::Apt,
        PackageManagerKind::Dnf,
        PackageManagerKind::Yum,
        PackageManagerKind::Pacman,
        PackageManagerKind::Zypper,
    ];
    for (index, kind) in probed.iter().enumerate() {
        assert_eq!(steps[index].action, Action::Run { command: version_check_command(*kind) });
    }
    for step in &steps[1..5] {
        assert!(step.notices.is_empty());
    }
    assert_eq!(steps[5].notices, vec![Notice::Detected { kind: PackageManagerKind::Apt }]);
    assert_eq!(steps[5].action, Action::Run { command: listing_command(PackageManagerKind::Apt) });
    match &steps[5].action {
        Action::Run { command } => {
            assert_eq!(command.program, "sh");
            assert_eq!(command.args, vec!["-c".to_string(), "dpkg -l | awk '/^ii/ {print $2}'".to_string()]);
        }
        Action::Stop => panic!("the run must go on to list the installed packages"),
    }
}

#[test]
fn detection_stops_at_the_first_manager_found() {
    let (_, steps) = drive(&[failed(), failed(), failed(), ok("")]);
    assert_eq!(steps.len(), 5);
    assert_eq!(steps[4].notices, vec![Notice::Detected { kind: PackageManagerKind::Pacman }]);
    assert_eq!(steps[4].action, Action::Run { command: listing_command(PackageManagerKind::Pacman) });
}

#[test]
fn a_listing_that_cannot_start_ends_the_run() {
    let (pipeline, steps) = drive(&[ok(""), not_started("no shell")]);
    assert!(pipeline.is_done());
    assert_eq!(
        steps[2].notices,
        vec![Notice::ListingFailed { error: ListingError::SpawnFailed { reason: "no shell".to_string() } }]
    );
    assert!(steps[2].notices[0].is_error());
    assert_eq!(steps[2].action, Action::Stop);
    let commands = steps.iter().filter(|step| matches!(step.action, Action::Run { .. })).count();
    assert_eq!(commands, 2);
}

#[test]
fn a_listing_that_is_no_text_ends_the_run() {
    let garbled = RunResult::Completed { success: true, stdout: vec![0xc3, 0x28] };
    let (pipeline, steps) = drive(&[ok(""), garbled]);
    assert!(pipeline.is_done());
    assert_eq!(steps[2].notices, vec![Notice::ListingFailed { error: ListingError::NotText }]);
    assert_eq!(steps[2].action, Action::Stop);
}

#[test]
fn nothing_installed_ends_the_run_without_a_search() {
    let (pipeline, steps) = drive(&[failed(), ok(""), ok("\n \n")]);
    assert!(pipeline.is_done());
    assert_eq!(steps[2].action, Action::Run { command: listing_command(PackageManagerKind::Dnf) });
    assert_eq!(steps[3].notices, vec![Notice::InstalledCount { count: 0 }, Notice::AllExist]);
    assert_eq!(steps[3].action, Action::Stop);
}

#[test]
fn nothing_missing_ends_the_run_without_a_removal() {
    let (pipeline, steps) = drive(&[ok(""), ok("foo\nbar\n"), ok("foo\n"), ok("bar\n")]);
    assert!(pipeline.is_done());
    assert_eq!(steps[4].notices, vec![Notice::AllExist]);
    assert_eq!(steps[4].action, Action::Stop);
    for step in &steps {
        assert!(!matches!(&step.action, Action::Run { command } if command.program == "sudo"));
    }
}

#[test]
fn every_missing_package_is_removed_in_turn() {
    let zypper = PackageManagerKind::Zypper;
    let (pipeline, steps) = drive(&[
        failed(),
        failed(),
        failed(),
        failed(),
        ok("zypper 1.14\n"),
        ok("a\nb\nc\n"),
        not_started("gone"),
        ok("b | a package\n"),
        ok(""),
        ok(""),
        not_started("no sudo"),
    ]);
    assert!(pipeline.is_done());
    assert_eq!(steps[6].action, Action::Run { command: existence_check_command(zypper, "a") });
    assert_eq!(steps[7].action, Action::Run { command: existence_check_command(zypper, "b") });
    assert_eq!(steps[8].action, Action::Run { command: existence_check_command(zypper, "c") });
    assert_eq!(
        steps[9].notices,
        vec![Notice::MissingFound { names: vec!["a".to_string(), "c".to_string()] }, Notice::RemovalStarts]
    );
    assert_eq!(steps[9].action, run(zypper)("a"));
    assert_eq!(
        steps[10].notices,
        vec![Notice::Removal { package: "a".to_string(), outcome: OperationOutcome::Uninstalled }]
    );
    assert_eq!(steps[10].action, run(zypper)("c"));
    assert_eq!(
        steps[11].notices,
        vec![
            Notice::Removal {
                package: "c".to_string(),
                outcome: OperationOutcome::Failed { reason: "no sudo".to_string() },
            },
            Notice::Completed,
        ]
    );
    assert_eq!(steps[11].action, Action::Stop);
}

#[test]
fn a_run_that_is_over_stays_over() {
    let (pipeline, _) = drive(&[ok(""), not_started("no shell")]);
    assert!(pipeline.is_done());
    let (pipeline, step) = pipeline.advance(&ok("foo\n"));
    assert!(pipeline.is_done());
    assert!(step.notices.is_empty());
    assert_eq!(step.action, Action::Stop);
}

#[test]
fn the_printed_report_of_a_run() {
    let (_, steps) = drive(&[ok(""), ok("foo\nbar\n"), ok("foo\n"), failed(), ok("")]);
    let mut printed = String::new();
    for step in &steps {
        for notice in &step.notices {
            assert!(!notice.is_error());
            printed.push_str(&notice.render());
            printed.push('\n');
        }
    }
    let expected = "🗑️  Package Uninstaller - Remove Non-Existent Packages\n\
======================================================\n\n\
Detected package manager: apt\n\n\
Found 2 installed packages\n\n\
Found 1 non-existent packages:\n  - bar\n\n\
Attempting to uninstall non-existent packages...\n\n\
✓ Uninstalled: bar\n\n\
✓ Operation completed!\n";
    assert_eq!(printed, expected);
}
