use pkg_sweep::outcome::RunResult;
use pkg_sweep::remove::{uninstall_package, OperationOutcome};

#[test]
fn a_removal_that_ran_counts_as_uninstalled() {
    let ran = RunResult::Completed { success: true, stdout: "Removing foo ...\n".as_bytes().to_vec() };
    assert_eq!(uninstall_package(&ran), OperationOutcome::Uninstalled);
}

#[test]
fn a_removal_that_ran_and_failed_still_counts_as_uninstalled() {
    let ran = RunResult::Completed { success: false, stdout: Vec::new() };
    assert_eq!(uninstall_package(&ran), OperationOutcome::Uninstalled);
}

#[test]
fn a_removal_that_could_not_start_failed() {
    let result = RunResult::SpawnFailed { reason: "No such file or directory (os error 2)".to_string() };
    assert_eq!(
        uninstall_package(&result),
        OperationOutcome::Failed { reason: "No such file or directory (os error 2)".to_string() }
    );
}
