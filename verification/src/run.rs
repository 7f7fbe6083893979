//! Whole runs of the state machine: what a sequence of results leads to, and
//! how that agrees with the stages taken one by one.

use vstd::prelude::*;
use vstd::utf8::decode_utf8;
use crate::command::{spec_existence_check, spec_removal, CommandLineView};
use crate::detect::{is_first_success, no_probe_passed};
use crate::filter::{confirmed, missing_names, spec_exists, verdicts};
use crate::inventory::{lemma_listed_names_clean, spec_installed};
use crate::manager::{candidate_order, fallback_kind, PackageManagerKind, CANDIDATE_COUNT};
use crate::outcome::RunResult;
use crate::pipeline::{
    begin_filter, begin_listing, begin_removal, finish, spec_advance, stage_wf, ActionView, StageView, StepView,
};
use crate::remove::spec_outcome;
use crate::report::NoticeView;

verus! {

/// The stage that a run reaches from `stage` when the results come in one
/// after the other.
pub open spec fn spec_run(stage: StageView, results: Seq<RunResult>) -> StageView
    decreases results.len(),
{
    if results.len() == 0 {
        stage
    } else {
        spec_run(spec_advance(stage, results.first()).0, results.drop_first())
    }
}

/// The steps that a run takes from `stage`, one for each result.
pub open spec fn spec_steps(stage: StageView, results: Seq<RunResult>) -> Seq<StepView>
    decreases results.len(),
{
    if results.len() == 0 {
        Seq::empty()
    } else {
        seq![spec_advance(stage, results.first()).1] + spec_steps(
            spec_advance(stage, results.first()).0,
            results.drop_first(),
        )
    }
}

/// The messages of the removals of `targets`, one for each result.
pub open spec fn removal_notices(targets: Seq<Seq<char>>, results: Seq<RunResult>) -> Seq<NoticeView> {
    Seq::new(
        results.len(),
        |i: int| NoticeView::Removal { package: targets[i], outcome: spec_outcome(results[i]) },
    )
}

/// All messages of a sequence of steps, in order.
pub open spec fn all_notices(steps: Seq<StepView>) -> Seq<NoticeView>
    decreases steps.len(),
{
    if steps.len() == 0 {
        Seq::empty()
    } else {
        steps.first().notices + all_notices(steps.drop_first())
    }
}

/// The commands that a sequence of steps hands out, in order.
pub open spec fn all_commands(steps: Seq<StepView>) -> Seq<CommandLineView>
    decreases steps.len(),
{
    if steps.len() == 0 {
        Seq::empty()
    } else {
        let later = all_commands(steps.drop_first());
        match steps.first().action {
            ActionView::Run { command } => seq![command] + later,
            ActionView::Stop => later,
        }
    }
}

/// The removals of the targets from position `from` on.
pub open spec fn removals_from(kind: PackageManagerKind, targets: Seq<Seq<char>>, from: int) -> Seq<CommandLineView> {
    Seq::new((targets.len() - from) as nat, |i: int| spec_removal(kind, targets[from + i]))
}

/// Every step keeps the stage well-formed.
pub proof fn lemma_advance_keeps_wf(stage: StageView, result: RunResult)
    requires
        stage_wf(stage),
    ensures
        stage_wf(spec_advance(stage, result).0),
{
    match stage {
        StageView::Listing { .. } => match result {
            RunResult::Completed { stdout, .. } => {
                lemma_listed_names_clean(decode_utf8(stdout@));
            },
            RunResult::SpawnFailed { .. } => {},
        },
        _ => {},
    }
}

/// A run that is over stays over: it prints nothing more and hands out no
/// command, whatever comes in.
pub proof fn lemma_done_stays_done(results: Seq<RunResult>)
    ensures
        spec_run(StageView::Done, results) == StageView::Done,
        all_notices(spec_steps(StageView::Done, results)) == Seq::<NoticeView>::empty(),
        all_commands(spec_steps(StageView::Done, results)) == Seq::<CommandLineView>::empty(),
    decreases results.len(),
{
    if results.len() > 0 {
        lemma_done_stays_done(results.drop_first());
        let steps = spec_steps(StageView::Done, results);
        assert(steps.drop_first() =~= spec_steps(StageView::Done, results.drop_first()));
        assert(all_notices(steps) =~= Seq::<NoticeView>::empty());
    }
}

/// Detection in the run is detection by `detect_package_manager`: where probe
/// `index` is the first that passes, the run that has seen the probes up to it
/// goes on to list with that candidate.
pub proof fn lemma_run_detects_first_success(probes: Seq<RunResult>, index: int)
    requires
        is_first_success(probes, index),
    ensures
        spec_run(StageView::Detecting { next: 0 }, probes.take(index + 1)) == begin_listing(
            candidate_order()[index],
        ).0,
{
    lemma_detecting_from(probes, index, 0);
    assert(probes.take(index + 1).skip(0) =~= probes.take(index + 1));
}

/// Detection from candidate `from` on, when the candidates before it failed.
proof fn lemma_detecting_from(probes: Seq<RunResult>, index: int, from: int)
    requires
        is_first_success(probes, index),
        0 <= from <= index,
    ensures
        spec_run(StageView::Detecting { next: from }, probes.take(index + 1).skip(from)) == begin_listing(
            candidate_order()[index],
        ).0,
    decreases index - from,
{
    let seen = probes.take(index + 1).skip(from);
    assert(seen.first() == probes[from]);
    if from == index {
        assert(seen.drop_first() =~= Seq::<RunResult>::empty());
        let after = spec_advance(StageView::Detecting { next: from }, seen.first()).0;
        assert(spec_run(after, seen.drop_first()) == after);
    } else {
        assert(!probes[from].exited_ok());
        assert(seen.drop_first() =~= probes.take(index + 1).skip(from + 1));
        lemma_detecting_from(probes, index, from + 1);
    }
}

/// Where every candidate was probed and none passed, the run goes on to list
/// with the fallback.
pub proof fn lemma_run_falls_back(probes: Seq<RunResult>)
    requires
        probes.len() == CANDIDATE_COUNT,
        no_probe_passed(probes),
    ensures
        spec_run(StageView::Detecting { next: 0 }, probes) == begin_listing(fallback_kind()).0,
{
    lemma_falling_back_from(probes, 0);
    assert(probes.skip(0) =~= probes);
}

/// Falling back from candidate `from` on, when no candidate passes.
proof fn lemma_falling_back_from(probes: Seq<RunResult>, from: int)
    requires
        probes.len() == CANDIDATE_COUNT,
        no_probe_passed(probes),
        0 <= from < CANDIDATE_COUNT,
    ensures
        spec_run(StageView::Detecting { next: from }, probes.skip(from)) == begin_listing(fallback_kind()).0,
    decreases CANDIDATE_COUNT - from,
{
    let seen = probes.skip(from);
    assert(seen.first() == probes[from]);
    assert(!probes[from].exited_ok());
    if from + 1 < CANDIDATE_COUNT {
        assert(seen.drop_first() =~= probes.skip(from + 1));
        lemma_falling_back_from(probes, from + 1);
    } else {
        assert(seen.drop_first() =~= Seq::<RunResult>::empty());
        let after = spec_advance(StageView::Detecting { next: from }, seen.first()).0;
        assert(spec_run(after, seen.drop_first()) == after);
    }
}

/// A listing that fails ends the run: the failure is reported, and nothing is
/// searched for or removed.
pub proof fn lemma_listing_failure_ends_run(kind: PackageManagerKind, result: RunResult)
    requires
        spec_installed(result) is Err,
    ensures
        spec_advance(StageView::Listing { kind }, result) == finish(
            seq![NoticeView::ListingFailed { error: spec_installed(result)->Err_0 }],
        ),
{
}

/// With nothing installed the run ends after the listing: nothing is searched
/// for and nothing is removed.
pub proof fn lemma_nothing_installed_ends_run(kind: PackageManagerKind)
    ensures
        begin_filter(kind, Seq::empty()).0 == StageView::Done,
        begin_filter(kind, Seq::empty()).1.action == ActionView::Stop,
{
}

/// With nothing missing the run ends after the filter: no removal is handed
/// out.
pub proof fn lemma_nothing_missing_ends_run(kind: PackageManagerKind)
    ensures
        begin_removal(kind, Seq::empty()) == finish(seq![NoticeView::AllExist]),
        begin_removal(kind, Seq::empty()).1.action == ActionView::Stop,
{
}

/// The searches for the names from position `from` on.
pub open spec fn searches_from(kind: PackageManagerKind, names: Seq<Seq<char>>, from: int) -> Seq<CommandLineView> {
    Seq::new((names.len() - from) as nat, |i: int| spec_existence_check(kind, names[from + i]))
}

/// The commands of one step: its command, if it hands one out.
pub open spec fn step_commands(step: StepView) -> Seq<CommandLineView> {
    match step.action {
        ActionView::Run { command } => seq![command],
        ActionView::Stop => Seq::empty(),
    }
}

/// The filter in the run is the filter of `find_non_existent_packages`: a run
/// that searches for every installed package goes on with exactly the missing
/// names that the searches give. On the way it hands out the searches for the
/// names after the first, each once and in order, and at the end what the
/// missing names call for: their report and the first removal, or the end of
/// the run.
pub proof fn lemma_run_filters(kind: PackageManagerKind, names: Seq<Seq<char>>, results: Seq<RunResult>)
    requires
        names.len() > 0,
        results.len() == names.len(),
    ensures
        spec_run(StageView::Filtering { kind, names, next: 0, missing: Seq::empty() }, results) == begin_removal(
            kind,
            missing_names(names, verdicts(results)),
        ).0,
        all_notices(spec_steps(StageView::Filtering { kind, names, next: 0, missing: Seq::empty() }, results))
            == begin_removal(kind, missing_names(names, verdicts(results))).1.notices,
        all_commands(spec_steps(StageView::Filtering { kind, names, next: 0, missing: Seq::empty() }, results))
            == searches_from(kind, names, 1) + step_commands(
            begin_removal(kind, missing_names(names, verdicts(results))).1,
        ),
{
    assert(names.take(0) =~= Seq::<Seq<char>>::empty());
    assert(results.skip(0) =~= results);
    lemma_filtering_from(kind, names, results, 0, Seq::empty());
}

/// The filter from name `from` on, when `missing` is what the names before it
/// gave.
proof fn lemma_filtering_from(
    kind: PackageManagerKind,
    names: Seq<Seq<char>>,
    results: Seq<RunResult>,
    from: int,
    missing: Seq<Seq<char>>,
)
    requires
        results.len() == names.len(),
        0 <= from < names.len(),
        missing == missing_names(names.take(from), verdicts(results)),
    ensures
        spec_run(StageView::Filtering { kind, names, next: from, missing }, results.skip(from)) == begin_removal(
            kind,
            missing_names(names, verdicts(results)),
        ).0,
        all_notices(spec_steps(StageView::Filtering { kind, names, next: from, missing }, results.skip(from)))
            == begin_removal(kind, missing_names(names, verdicts(results))).1.notices,
        all_commands(spec_steps(StageView::Filtering { kind, names, next: from, missing }, results.skip(from)))
            == searches_from(kind, names, from + 1) + step_commands(
            begin_removal(kind, missing_names(names, verdicts(results))).1,
        ),
    decreases names.len() - from,
{
    let stage = StageView::Filtering { kind, names, next: from, missing };
    let left = results.skip(from);
    let last = begin_removal(kind, missing_names(names, verdicts(results))).1;
    assert(left.first() == results[from]);
    let found = if spec_exists(results[from]) {
        missing
    } else {
        missing.push(names[from])
    };
    assert(names.take(from + 1).drop_last() =~= names.take(from));
    assert(names.take(from + 1).last() == names[from]);
    assert(confirmed(verdicts(results), from) == spec_exists(results[from]));
    assert(found == missing_names(names.take(from + 1), verdicts(results)));
    let after = spec_advance(stage, left.first()).0;
    let step = spec_advance(stage, left.first()).1;
    let steps = spec_steps(stage, left);
    assert(steps.first() == step);
    assert(steps.drop_first() =~= spec_steps(after, left.drop_first()));
    if from + 1 < names.len() {
        assert(left.drop_first() =~= results.skip(from + 1));
        lemma_filtering_from(kind, names, results, from + 1, found);
        assert(all_notices(steps) =~= last.notices);
        assert(all_commands(steps) =~= searches_from(kind, names, from + 1) + step_commands(last));
    } else {
        assert(names.take(from + 1) =~= names);
        assert(left.drop_first() =~= Seq::<RunResult>::empty());
        assert(spec_run(after, left.drop_first()) == after);
        assert(spec_steps(after, left.drop_first()) =~= Seq::<StepView>::empty());
        assert(all_notices(steps.drop_first()) =~= Seq::<NoticeView>::empty());
        assert(all_commands(steps.drop_first()) =~= Seq::<CommandLineView>::empty());
        assert(step == last);
        assert(all_notices(steps) =~= last.notices);
        assert(all_commands(steps) =~= searches_from(kind, names, from + 1) + step_commands(last));
    }
}

/// The removals in the run: a run that hears of every removal ends, reports
/// each target once, in order, with the outcome of its own removal, and then
/// that it is through. The commands it hands out on the way are the removals of
/// the targets after the first, each once.
pub proof fn lemma_run_removes(kind: PackageManagerKind, targets: Seq<Seq<char>>, results: Seq<RunResult>)
    requires
        targets.len() > 0,
        results.len() == targets.len(),
    ensures
        spec_run(StageView::Removing { kind, targets, next: 0 }, results) == StageView::Done,
        all_notices(spec_steps(StageView::Removing { kind, targets, next: 0 }, results)) == removal_notices(
            targets,
            results,
        ).push(NoticeView::Completed),
        all_commands(spec_steps(StageView::Removing { kind, targets, next: 0 }, results)) == removals_from(
            kind,
            targets,
            1,
        ),
{
    lemma_removing_from(kind, targets, results, 0);
    assert(results.skip(0) =~= results);
    assert(removal_notices(targets, results).skip(0) =~= removal_notices(targets, results));
}

/// The removals from target `from` on.
proof fn lemma_removing_from(kind: PackageManagerKind, targets: Seq<Seq<char>>, results: Seq<RunResult>, from: int)
    requires
        results.len() == targets.len(),
        0 <= from < targets.len(),
    ensures
        spec_run(StageView::Removing { kind, targets, next: from }, results.skip(from)) == StageView::Done,
        all_notices(spec_steps(StageView::Removing { kind, targets, next: from }, results.skip(from)))
            == removal_notices(targets, results).skip(from).push(NoticeView::Completed),
        all_commands(spec_steps(StageView::Removing { kind, targets, next: from }, results.skip(from)))
            == removals_from(kind, targets, from + 1),
    decreases targets.len() - from,
{
    let stage = StageView::Removing { kind, targets, next: from };
    let left = results.skip(from);
    let reports = removal_notices(targets, results);
    assert(left.first() == results[from]);
    let after = spec_advance(stage, left.first()).0;
    let step = spec_advance(stage, left.first()).1;
    let steps = spec_steps(stage, left);
    assert(steps.first() == step);
    assert(steps.drop_first() =~= spec_steps(after, left.drop_first()));
    if from + 1 < targets.len() {
        assert(left.drop_first() =~= results.skip(from + 1));
        lemma_removing_from(kind, targets, results, from + 1);
        assert(all_notices(steps) =~= reports.skip(from).push(NoticeView::Completed));
        assert(all_commands(steps) =~= removals_from(kind, targets, from + 1));
    } else {
        assert(left.drop_first() =~= Seq::<RunResult>::empty());
        assert(spec_run(after, left.drop_first()) == after);
        assert(spec_steps(after, left.drop_first()) =~= Seq::<StepView>::empty());
        assert(all_notices(steps.drop_first()) =~= Seq::<NoticeView>::empty());
        assert(all_commands(steps.drop_first()) =~= Seq::<CommandLineView>::empty());
        assert(all_notices(steps) =~= reports.skip(from).push(NoticeView::Completed));
        assert(all_commands(steps) =~= removals_from(kind, targets, from + 1));
    }
}

/// A run over two sequences of results is the run over the first, and then,
/// from where that ends, the run over the second.
pub proof fn lemma_run_concat(stage: StageView, first: Seq<RunResult>, second: Seq<RunResult>)
    ensures
        spec_run(stage, first + second) == spec_run(spec_run(stage, first), second),
        spec_steps(stage, first + second) == spec_steps(stage, first) + spec_steps(spec_run(stage, first), second),
    decreases first.len(),
{
    if first.len() == 0 {
        assert(first + second =~= second);
        assert(spec_steps(stage, first) + spec_steps(stage, second) =~= spec_steps(stage, second));
    } else {
        let after = spec_advance(stage, first.first()).0;
        assert((first + second).first() == first.first());
        assert((first + second).drop_first() =~= first.drop_first() + second);
        lemma_run_concat(after, first.drop_first(), second);
        assert(spec_steps(stage, first + second) =~= spec_steps(stage, first) + spec_steps(
            spec_run(stage, first),
            second,
        ));
    }
}

/// The messages and the commands of two sequences of steps, one after the
/// other, are those of the first and then those of the second.
pub proof fn lemma_steps_concat(first: Seq<StepView>, second: Seq<StepView>)
    ensures
        all_notices(first + second) == all_notices(first) + all_notices(second),
        all_commands(first + second) == all_commands(first) + all_commands(second),
    decreases first.len(),
{
    if first.len() == 0 {
        assert(first + second =~= second);
        assert(all_notices(first) + all_notices(second) =~= all_notices(second));
        assert(all_commands(first) + all_commands(second) =~= all_commands(second));
    } else {
        assert((first + second).first() == first.first());
        assert((first + second).drop_first() =~= first.drop_first() + second);
        lemma_steps_concat(first.drop_first(), second);
        assert(all_notices(first + second) =~= all_notices(first) + all_notices(second));
        assert(all_commands(first + second) =~= all_commands(first) + all_commands(second));
    }
}

/// From the listing to the end. A run that lists `names`, hears of the search
/// for each, and then of the removal of each missing one, is over. Besides the
/// searches it hands out one removal for each missing package, in order, and no
/// other command; it reports the count, the missing packages, each removal
/// with its outcome, and the end.
pub proof fn lemma_run_after_listing(
    kind: PackageManagerKind,
    listing: RunResult,
    searches: Seq<RunResult>,
    removals: Seq<RunResult>,
)
    requires
        spec_installed(listing) is Ok,
        spec_installed(listing)->Ok_0.len() > 0,
        searches.len() == spec_installed(listing)->Ok_0.len(),
        removals.len() == missing_names(spec_installed(listing)->Ok_0, verdicts(searches)).len(),
        removals.len() > 0,
    ensures
        ({
            let names = spec_installed(listing)->Ok_0;
            let missing = missing_names(names, verdicts(searches));
            let steps = spec_steps(StageView::Listing { kind }, seq![listing] + searches + removals);
            &&& spec_run(StageView::Listing { kind }, seq![listing] + searches + removals) == StageView::Done
            &&& all_commands(steps) == searches_from(kind, names, 0) + removals_from(kind, missing, 0)
            &&& all_notices(steps) == seq![
                NoticeView::InstalledCount { count: names.len() },
                NoticeView::MissingFound { names: missing },
                NoticeView::RemovalStarts,
            ] + removal_notices(missing, removals).push(NoticeView::Completed)
        }),
{
    let names = spec_installed(listing)->Ok_0;
    let missing = missing_names(names, verdicts(searches));
    let start = StageView::Listing { kind };
    let filtering = StageView::Filtering { kind, names, next: 0, missing: Seq::empty() };
    let removing = StageView::Removing { kind, targets: missing, next: 0 };
    let first = spec_advance(start, listing).1;
    assert(spec_advance(start, listing) == begin_filter(kind, names));

    assert(seq![listing].drop_first() =~= Seq::<RunResult>::empty());
    assert(spec_run(start, seq![listing]) == filtering) by {
        assert(spec_run(filtering, Seq::<RunResult>::empty()) == filtering);
    }
    assert(spec_steps(start, seq![listing]) =~= seq![first]) by {
        assert(spec_steps(filtering, Seq::<RunResult>::empty()) =~= Seq::<StepView>::empty());
    }
    lemma_run_filters(kind, names, searches);
    lemma_run_removes(kind, missing, removals);
    lemma_run_concat(start, seq![listing], searches);
    lemma_run_concat(start, seq![listing] + searches, removals);

    let listed = spec_steps(start, seq![listing]);
    let searched = spec_steps(filtering, searches);
    let removed = spec_steps(removing, removals);
    let steps = spec_steps(start, seq![listing] + searches + removals);
    assert(steps == listed + searched + removed);
    lemma_steps_concat(listed, searched);
    lemma_steps_concat(listed + searched, removed);
    assert(all_commands(seq![first]) =~= seq![spec_existence_check(kind, names[0])]) by {
        assert(seq![first].drop_first() =~= Seq::<StepView>::empty());
        assert(all_commands(Seq::<StepView>::empty()) =~= Seq::<CommandLineView>::empty());
    }
    assert(all_notices(seq![first]) =~= seq![NoticeView::InstalledCount { count: names.len() }]) by {
        assert(seq![first].drop_first() =~= Seq::<StepView>::empty());
        assert(all_notices(Seq::<StepView>::empty()) =~= Seq::<NoticeView>::empty());
    }
    assert(all_commands(steps) =~= searches_from(kind, names, 0) + removals_from(kind, missing, 0));
    assert(all_notices(steps) =~= seq![
        NoticeView::InstalledCount { count: names.len() },
        NoticeView::MissingFound { names: missing },
        NoticeView::RemovalStarts,
    ] + removal_notices(missing, removals).push(NoticeView::Completed));
}

} // verus!
