//! The existence filter: which installed packages no repository offers.

use vstd::prelude::*;
use crate::inventory::InstalledPackageSet;
use crate::outcome::RunResult;
use crate::text::texts;

verus! {

/// The output holds a line with something on it: a byte that is no line feed.
pub open spec fn has_match(output: Seq<u8>) -> bool {
    exists|i: int| 0 <= i < output.len() && #[trigger] output[i] != 10u8
}

/// What a repository search says of its package: the package exists where the
/// search ran, left with status zero and printed a match. A search that could
/// not be started counts as "does not exist".
pub open spec fn spec_exists(result: RunResult) -> bool {
    result.exited_ok() && has_match(result.output())
}

/// The verdict of each search of a sequence.
pub open spec fn verdicts(results: Seq<RunResult>) -> Seq<bool> {
    Seq::new(results.len(), |i: int| spec_exists(results[i]))
}

/// The verdict at `index` is "exists". Where there is no verdict, nothing was
/// confirmed.
pub open spec fn confirmed(found: Seq<bool>, index: int) -> bool {
    0 <= index < found.len() && found[index]
}

/// The names whose verdict is not "exists", in the order of `names`. The
/// verdict of `names[i]` is `found[i]`; a name without a verdict is kept.
pub open spec fn missing_names(names: Seq<Seq<char>>, found: Seq<bool>) -> Seq<Seq<char>>
    decreases names.len(),
{
    if names.len() == 0 {
        Seq::empty()
    } else {
        let earlier = missing_names(names.drop_last(), found);
        if confirmed(found, names.len() - 1) {
            earlier
        } else {
            earlier.push(names.last())
        }
    }
}

/// `item` occurs in `list` at one position and at no other.
pub open spec fn occurs_once(list: Seq<Seq<char>>, item: Seq<char>) -> bool {
    exists|at: int|
        {
            &&& 0 <= at < list.len()
            &&& #[trigger] list[at] == item
            &&& forall|other: int| 0 <= other < list.len() && #[trigger] list[other] == item ==> other == at
        }
}

fn output_has_match(output: &Vec<u8>) -> (matched: bool)
    ensures
        matched == has_match(output@),
{
    let mut index: usize = 0;
    while index < output.len()
        invariant
            index <= output.len(),
            forall|earlier: int| 0 <= earlier < index ==> #[trigger] output@[earlier] == 10u8,
        decreases output.len() - index,
    {
        if output[index] != 10u8 {
            return true;
        }
        index += 1;
    }
    false
}

/// Tells from the result of a repository search whether the package exists.
pub fn package_exists_in_repos(result: &RunResult) -> (present: bool)
    ensures
        present == spec_exists(*result),
{
    match result {
        RunResult::Completed { success, stdout } => *success && output_has_match(stdout),
        RunResult::SpawnFailed { .. } => false,
    }
}

/// Collects the installed packages that no repository offers.
///
/// `results[i]` is what the repository search for the `i`-th name of
/// `installed.names()` gave: one search per package. The packages whose search
/// does not say "exists" are returned, in the order of the set.
pub fn find_non_existent_packages(installed: &InstalledPackageSet, results: &Vec<RunResult>) -> (missing: Vec<
    String,
>)
    requires
        results.len() == installed.names_view().len(),
    ensures
        texts(missing@) == missing_names(installed.names_view(), verdicts(results@)),
        texts(missing@).no_duplicates(),
        missing@.len() <= installed.names_view().len(),
{
    let names = installed.names();
    proof {
        lemma_missing_no_duplicates(installed.names_view(), verdicts(results@));
        lemma_missing_bounded(installed.names_view(), verdicts(results@));
    }
    let ghost found = verdicts(results@);
    let mut missing: Vec<String> = Vec::new();
    let mut index: usize = 0;
    assert(texts(names@).take(0) =~= Seq::<Seq<char>>::empty());
    assert(texts(missing@) =~= Seq::<Seq<char>>::empty());
    while index < names.len()
        invariant
            index <= names.len(),
            names.len() == results.len(),
            found == verdicts(results@),
            texts(missing@) == missing_names(texts(names@).take(index as int), found),
        decreases names.len() - index,
    {
        let ghost upto = texts(names@).take(index + 1);
        assert(upto.drop_last() =~= texts(names@).take(index as int));
        assert(upto.last() == names@[index as int]@);
        if !package_exists_in_repos(&results[index]) {
            let ghost before = texts(missing@);
            missing.push(names[index].clone());
            assert(texts(missing@) =~= before.push(names@[index as int]@));
        }
        index += 1;
    }
    assert(texts(names@).take(index as int) =~= texts(names@));
    missing
}

/// A name is reported as missing exactly where it is one of the names and its
/// verdict is not "exists".
pub proof fn lemma_missing_members(names: Seq<Seq<char>>, found: Seq<bool>, name: Seq<char>)
    ensures
        missing_names(names, found).contains(name) <==> exists|i: int|
            0 <= i < names.len() && #[trigger] names[i] == name && !confirmed(found, i),
    decreases names.len(),
{
    if names.len() > 0 {
        let last = names.len() - 1;
        let earlier = missing_names(names.drop_last(), found);
        let all = missing_names(names, found);
        lemma_missing_members(names.drop_last(), found, name);
        if all.contains(name) {
            if earlier.contains(name) {
                let i = choose|i: int|
                    0 <= i < names.drop_last().len() && #[trigger] names.drop_last()[i] == name && !confirmed(
                        found,
                        i,
                    );
                assert(names[i] == name);
            } else {
                let at = choose|at: int| 0 <= at < all.len() && all[at] == name;
                if at < earlier.len() {
                    assert(earlier[at] == name);
                }
                assert(names[last] == name);
            }
        }
        if exists|i: int| 0 <= i < names.len() && #[trigger] names[i] == name && !confirmed(found, i) {
            let i = choose|i: int| 0 <= i < names.len() && #[trigger] names[i] == name && !confirmed(found, i);
            if i < last {
                assert(names.drop_last()[i] == name);
                let at = choose|at: int| 0 <= at < earlier.len() && earlier[at] == name;
                assert(all[at] == name);
            } else {
                assert(earlier.push(names.last())[earlier.len() as int] == name);
            }
        }
    }
}

/// There are never more missing names than names: where nothing is installed,
/// nothing is missing.
pub proof fn lemma_missing_bounded(names: Seq<Seq<char>>, found: Seq<bool>)
    ensures
        missing_names(names, found).len() <= names.len(),
        names.len() == 0 ==> missing_names(names, found) == Seq::<Seq<char>>::empty(),
    decreases names.len(),
{
    if names.len() > 0 {
        lemma_missing_bounded(names.drop_last(), found);
    }
}

/// Where every search says "exists", no name is missing.
pub proof fn lemma_all_exist_none_missing(names: Seq<Seq<char>>, found: Seq<bool>)
    requires
        forall|i: int| 0 <= i < names.len() ==> confirmed(found, i),
    ensures
        missing_names(names, found) == Seq::<Seq<char>>::empty(),
    decreases names.len(),
{
    if names.len() > 0 {
        lemma_all_exist_none_missing(names.drop_last(), found);
        assert(confirmed(found, names.len() - 1));
    }
}

/// Names that are pairwise different give missing names that are pairwise
/// different.
pub proof fn lemma_missing_no_duplicates(names: Seq<Seq<char>>, found: Seq<bool>)
    requires
        names.no_duplicates(),
    ensures
        missing_names(names, found).no_duplicates(),
    decreases names.len(),
{
    if names.len() > 0 {
        let earlier = missing_names(names.drop_last(), found);
        lemma_missing_no_duplicates(names.drop_last(), found);
        lemma_missing_members(names.drop_last(), found, names.last());
        if earlier.contains(names.last()) {
            let i = choose|i: int|
                0 <= i < names.drop_last().len() && #[trigger] names.drop_last()[i] == names.last() && !confirmed(
                    found,
                    i,
                );
            assert(names[i] == names[names.len() - 1]);
            assert(false);
        }
    }
}

/// A package whose search does not say "exists" is reported exactly once.
pub proof fn lemma_missing_once(names: Seq<Seq<char>>, found: Seq<bool>, index: int)
    requires
        names.no_duplicates(),
        0 <= index < names.len(),
        !confirmed(found, index),
    ensures
        occurs_once(missing_names(names, found), names[index]),
{
    let missing = missing_names(names, found);
    lemma_missing_members(names, found, names[index]);
    lemma_missing_no_duplicates(names, found);
    let at = choose|at: int| 0 <= at < missing.len() && missing[at] == names[index];
    assert(missing[at] == names[index]);
}

/// The missing packages, as a set, are the installed ones that the
/// repositories do not offer: where each verdict tells whether its package is
/// among the `available` ones, the missing names are the names without the
/// available ones.
pub proof fn lemma_missing_is_difference(names: Seq<Seq<char>>, found: Seq<bool>, available: Set<Seq<char>>)
    requires
        forall|i: int| 0 <= i < names.len() ==> confirmed(found, i) == available.contains(#[trigger] names[i]),
    ensures
        missing_names(names, found).to_set() == names.to_set().difference(available),
{
    let missing = missing_names(names, found);
    assert forall|name: Seq<char>| missing.to_set().contains(name) <==> names.to_set().difference(
        available,
    ).contains(name) by {
        lemma_missing_members(names, found, name);
        if missing.contains(name) {
            let i = choose|i: int| 0 <= i < names.len() && #[trigger] names[i] == name && !confirmed(found, i);
            assert(names.contains(name));
        }
        if names.contains(name) && !available.contains(name) {
            let i = choose|i: int| 0 <= i < names.len() && names[i] == name;
            assert(names[i] == name && !confirmed(found, i));
        }
    }
    assert(missing.to_set() =~= names.to_set().difference(available));
}

/// Filtering twice gives the same packages. Two passes over the same installed
/// set, in whatever order each walks it, against the same repositories report
/// the same set of missing packages.
pub proof fn lemma_filter_repeatable(
    first_names: Seq<Seq<char>>,
    first_found: Seq<bool>,
    second_names: Seq<Seq<char>>,
    second_found: Seq<bool>,
    available: Set<Seq<char>>,
)
    requires
        first_names.to_set() == second_names.to_set(),
        forall|i: int|
            0 <= i < first_names.len() ==> confirmed(first_found, i) == available.contains(
                #[trigger] first_names[i],
            ),
        forall|i: int|
            0 <= i < second_names.len() ==> confirmed(second_found, i) == available.contains(
                #[trigger] second_names[i],
            ),
    ensures
        missing_names(first_names, first_found).to_set() == missing_names(second_names, second_found).to_set(),
{
    lemma_missing_is_difference(first_names, first_found, available);
    lemma_missing_is_difference(second_names, second_found, available);
}

/// Filtering the same names in the same order with the same verdicts gives the
/// same list.
pub proof fn lemma_same_verdicts_same_missing(names: Seq<Seq<char>>, first: Seq<bool>, second: Seq<bool>)
    requires
        forall|i: int| 0 <= i < names.len() ==> confirmed(first, i) == confirmed(second, i),
    ensures
        missing_names(names, first) == missing_names(names, second),
    decreases names.len(),
{
    if names.len() > 0 {
        lemma_same_verdicts_same_missing(names.drop_last(), first, second);
        assert(confirmed(first, names.len() - 1) == confirmed(second, names.len() - 1));
    }
}

} // verus!
