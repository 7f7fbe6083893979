//! Detection of the package manager from the results of its version probes.

use vstd::prelude::*;
use crate::manager::{candidate_order, fallback_kind, PackageManagerKind, CANDIDATE_COUNT};
use crate::outcome::RunResult;

verus! {

/// Probe `index` is the first one that passed: it ran and left with status
/// zero, no earlier probe did, and it is one of the probes that count.
pub open spec fn is_first_success(probes: Seq<RunResult>, index: int) -> bool {
    &&& 0 <= index < probes.len()
    &&& index < CANDIDATE_COUNT
    &&& probes[index].exited_ok()
    &&& forall|earlier: int| 0 <= earlier < index ==> !(#[trigger] probes[earlier]).exited_ok()
}

/// None of the probes that count passed.
pub open spec fn no_probe_passed(probes: Seq<RunResult>) -> bool {
    forall|index: int|
        0 <= index < probes.len() && index < CANDIDATE_COUNT ==> !(#[trigger] probes[index]).exited_ok()
}

/// Picks the package manager from the results of the version probes.
///
/// `probes[i]` is what running the version check of candidate `i` gave, in
/// probing order. The manager is the candidate of the first probe that passed.
/// Where no probe passed (none was made, every one failed or could not be
/// started) it is the fallback: detection never fails. Results beyond the last
/// candidate are not looked at.
pub fn detect_package_manager(probes: &Vec<RunResult>) -> (kind: PackageManagerKind)
    ensures
        forall|index: int| is_first_success(probes@, index) ==> kind == candidate_order()[index],
        no_probe_passed(probes@) ==> kind == fallback_kind(),
{
    let mut index: usize = 0;
    while index < probes.len() && index < CANDIDATE_COUNT
        invariant
            index <= probes.len(),
            index <= CANDIDATE_COUNT,
            forall|earlier: int| 0 <= earlier < index ==> !(#[trigger] probes@[earlier]).exited_ok(),
        decreases probes.len() - index,
    {
        if probes[index].succeeded() {
            assert forall|other: int| is_first_success(probes@, other) implies other == index by {
                if other < index {
                    assert(!probes@[other].exited_ok());
                } else if other > index {
                    assert(!probes@[index as int].exited_ok());
                }
            }
            return PackageManagerKind::candidate(index);
        }
        index += 1;
    }
    PackageManagerKind::Apt
}

/// At most one probe is the first that passed, so detection has one answer.
pub proof fn lemma_first_success_unique(probes: Seq<RunResult>, a: int, b: int)
    requires
        is_first_success(probes, a),
        is_first_success(probes, b),
    ensures
        a == b,
{
    if a < b {
        assert(!probes[a].exited_ok());
    } else if b < a {
        assert(!probes[b].exited_ok());
    }
}

/// Either some probe is the first that passed, or none passed: the two cases
/// of detection cover every sequence of results.
pub proof fn lemma_detection_total(probes: Seq<RunResult>)
    ensures
        no_probe_passed(probes) || exists|index: int| is_first_success(probes, index),
{
    lemma_detection_total_upto(probes, 0);
}

proof fn lemma_detection_total_upto(probes: Seq<RunResult>, from: int)
    requires
        0 <= from,
        forall|earlier: int| 0 <= earlier < from && earlier < probes.len() ==> !(#[trigger] probes[earlier]).exited_ok(),
    ensures
        no_probe_passed(probes) || exists|index: int| is_first_success(probes, index),
    decreases probes.len() - from,
{
    if from >= probes.len() || from >= CANDIDATE_COUNT {
        if !no_probe_passed(probes) {
            let index = choose|index: int|
                0 <= index < probes.len() && index < CANDIDATE_COUNT && (#[trigger] probes[index]).exited_ok();
            assert(index < from);
            assert(false);
        }
    } else if probes[from].exited_ok() {
        assert(is_first_success(probes, from));
    } else {
        lemma_detection_total_upto(probes, from + 1);
    }
}

} // verus!
