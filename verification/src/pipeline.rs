//! The whole run as a state machine.
//!
//! The machine never runs a command. Each step hands out the messages to print
//! and the next command to run; the caller runs the command and hands back what
//! it gave. A run goes from detection to listing to the existence filter, and
//! on to the removals where the filter found something.

use vstd::prelude::*;
use crate::command::{
    existence_check_command, listing_command, removal_command, spec_existence_check, spec_listing, spec_removal,
    spec_version_check, version_check_command, CommandLine, CommandLineView,
};
use crate::filter::{package_exists_in_repos, spec_exists};
use crate::inventory::{get_installed_packages, spec_installed, InstalledPackageSet};
use crate::manager::{candidate_order, fallback_kind, PackageManagerKind, CANDIDATE_COUNT};
use crate::outcome::RunResult;
use crate::remove::{spec_outcome, uninstall_package};
use crate::report::{notice_views, Notice, NoticeView};
use crate::text::texts;

verus! {

/// What the caller does next.
#[derive(Clone, Debug, PartialEq, Eq)]
pub enum Action {
    /// Run this command to its end and hand its result to `advance`.
    Run { command: CommandLine },
    /// Nothing is left to do.
    Stop,
}

/// An action as plain values.
pub enum ActionView {
    Run { command: CommandLineView },
    Stop,
}

impl View for Action {
    type V = ActionView;

    open spec fn view(&self) -> ActionView {
        match self {
            Action::Run { command } => ActionView::Run { command: command@ },
            Action::Stop => ActionView::Stop,
        }
    }
}

/// One step of the run: the messages to print, in order, and then the action
/// to take.
#[derive(Clone, Debug, PartialEq, Eq)]
pub struct Step {
    pub notices: Vec<Notice>,
    pub action: Action,
}

/// A step as plain values.
pub struct StepView {
    pub notices: Seq<NoticeView>,
    pub action: ActionView,
}

impl View for Step {
    type V = StepView;

    open spec fn view(&self) -> StepView {
        StepView { notices: notice_views(self.notices@), action: self.action@ }
    }
}

/// Where a run stands. Every stage but the last waits for the result of the
/// command that was handed out last.
pub enum StageView {
    /// Waiting for the version probe of candidate `next`.
    Detecting { next: int },
    /// Waiting for the listing of the installed packages.
    Listing { kind: PackageManagerKind },
    /// Waiting for the repository search for `names[next]`; `missing` holds the
    /// names before it that no repository offers.
    Filtering { kind: PackageManagerKind, names: Seq<Seq<char>>, next: int, missing: Seq<Seq<char>> },
    /// Waiting for the removal of `targets[next]`.
    Removing { kind: PackageManagerKind, targets: Seq<Seq<char>>, next: int },
    /// The run is over.
    Done,
}

/// The positions of a stage lie within its lists, and the installed names are
/// pairwise different.
pub open spec fn stage_wf(stage: StageView) -> bool {
    match stage {
        StageView::Detecting { next } => 0 <= next < CANDIDATE_COUNT,
        StageView::Listing { .. } => true,
        StageView::Filtering { names, next, .. } => names.no_duplicates() && 0 <= next < names.len(),
        StageView::Removing { targets, next, .. } => 0 <= next < targets.len(),
        StageView::Done => true,
    }
}

/// The step that ends a run.
pub open spec fn finish(notices: Seq<NoticeView>) -> (StageView, StepView) {
    (StageView::Done, StepView { notices, action: ActionView::Stop })
}

/// Detection settled on `kind`: the run says so and goes on to list the
/// installed packages.
pub open spec fn begin_listing(kind: PackageManagerKind) -> (StageView, StepView) {
    (
        StageView::Listing { kind },
        StepView {
            notices: seq![NoticeView::Detected { kind }],
            action: ActionView::Run { command: spec_listing(kind) },
        },
    )
}

/// The listing gave `names`: the run says how many, and goes on to search for
/// the first; with nothing installed it ends at once.
pub open spec fn begin_filter(kind: PackageManagerKind, names: Seq<Seq<char>>) -> (StageView, StepView) {
    let count = NoticeView::InstalledCount { count: names.len() };
    if names.len() == 0 {
        finish(seq![count, NoticeView::AllExist])
    } else {
        (
            StageView::Filtering { kind, names, next: 0, missing: Seq::empty() },
            StepView {
                notices: seq![count],
                action: ActionView::Run { command: spec_existence_check(kind, names[0]) },
            },
        )
    }
}

/// The filter is through and found `missing`: with nothing missing the run
/// ends, else it names the missing packages and goes on to remove the first.
pub open spec fn begin_removal(kind: PackageManagerKind, missing: Seq<Seq<char>>) -> (StageView, StepView) {
    if missing.len() == 0 {
        finish(seq![NoticeView::AllExist])
    } else {
        (
            StageView::Removing { kind, targets: missing, next: 0 },
            StepView {
                notices: seq![NoticeView::MissingFound { names: missing }, NoticeView::RemovalStarts],
                action: ActionView::Run { command: spec_removal(kind, missing[0]) },
            },
        )
    }
}

/// The step that a stage takes when the result of its command comes in.
pub open spec fn spec_advance(stage: StageView, result: RunResult) -> (StageView, StepView) {
    match stage {
        StageView::Detecting { next } => if result.exited_ok() {
            begin_listing(candidate_order()[next])
        } else if next + 1 < CANDIDATE_COUNT {
            (
                StageView::Detecting { next: next + 1 },
                StepView {
                    notices: Seq::empty(),
                    action: ActionView::Run { command: spec_version_check(candidate_order()[next + 1]) },
                },
            )
        } else {
            begin_listing(fallback_kind())
        },
        StageView::Listing { kind } => match spec_installed(result) {
            Ok(names) => begin_filter(kind, names),
            Err(error) => finish(seq![NoticeView::ListingFailed { error }]),
        },
        StageView::Filtering { kind, names, next, missing } => {
            let found = if spec_exists(result) {
                missing
            } else {
                missing.push(names[next])
            };
            if next + 1 < names.len() {
                (
                    StageView::Filtering { kind, names, next: next + 1, missing: found },
                    StepView {
                        notices: Seq::empty(),
                        action: ActionView::Run { command: spec_existence_check(kind, names[next + 1]) },
                    },
                )
            } else {
                begin_removal(kind, found)
            }
        },
        StageView::Removing { kind, targets, next } => {
            let removal = NoticeView::Removal { package: targets[next], outcome: spec_outcome(result) };
            if next + 1 < targets.len() {
                (
                    StageView::Removing { kind, targets, next: next + 1 },
                    StepView {
                        notices: seq![removal],
                        action: ActionView::Run { command: spec_removal(kind, targets[next + 1]) },
                    },
                )
            } else {
                finish(seq![removal, NoticeView::Completed])
            }
        },
        StageView::Done => finish(Seq::empty()),
    }
}

#[derive(Debug)]
enum Stage {
    Detecting { next: usize },
    Listing { kind: PackageManagerKind },
    Filtering { kind: PackageManagerKind, installed: InstalledPackageSet, next: usize, missing: Vec<String> },
    Removing { kind: PackageManagerKind, targets: Vec<String>, next: usize },
    Done,
}

/// A run in progress.
#[derive(Debug)]
pub struct Pipeline {
    stage: Stage,
}

impl View for Pipeline {
    type V = StageView;

    closed spec fn view(&self) -> StageView {
        match self.stage {
            Stage::Detecting { next } => StageView::Detecting { next: next as int },
            Stage::Listing { kind } => StageView::Listing { kind },
            Stage::Filtering { kind, installed, next, missing } => StageView::Filtering {
                kind,
                names: installed.names_view(),
                next: next as int,
                missing: texts(missing@),
            },
            Stage::Removing { kind, targets, next } => StageView::Removing {
                kind,
                targets: texts(targets@),
                next: next as int,
            },
            Stage::Done => StageView::Done,
        }
    }
}

fn one_notice(notice: Notice) -> (notices: Vec<Notice>)
    ensures
        notice_views(notices@) == seq![notice@],
{
    let mut notices: Vec<Notice> = Vec::new();
    notices.push(notice);
    assert(notice_views(notices@) =~= seq![notice@]);
    notices
}

fn two_notices(first: Notice, second: Notice) -> (notices: Vec<Notice>)
    ensures
        notice_views(notices@) == seq![first@, second@],
{
    let mut notices: Vec<Notice> = Vec::new();
    notices.push(first);
    notices.push(second);
    assert(notice_views(notices@) =~= seq![first@, second@]);
    notices
}

fn no_notice() -> (notices: Vec<Notice>)
    ensures
        notice_views(notices@) == Seq::<NoticeView>::empty(),
{
    let notices: Vec<Notice> = Vec::new();
    assert(notice_views(notices@) =~= Seq::<NoticeView>::empty());
    notices
}

impl Pipeline {
    /// The positions of the stage lie within its lists. This holds of every
    /// run.
    pub open spec fn wf(&self) -> bool {
        stage_wf(self@)
    }

    #[verifier::type_invariant]
    spec fn stage_fits(&self) -> bool {
        stage_wf(self@)
    }

    fn finished(notices: Vec<Notice>) -> (end: (Pipeline, Step))
        ensures
            end.0.wf(),
            (end.0@, end.1@) == finish(notice_views(notices@)),
    {
        (Pipeline { stage: Stage::Done }, Step { notices, action: Action::Stop })
    }

    fn listing(kind: PackageManagerKind) -> (begun: (Pipeline, Step))
        ensures
            begun.0.wf(),
            (begun.0@, begun.1@) == begin_listing(kind),
    {
        let notices = one_notice(Notice::Detected { kind });
        (Pipeline { stage: Stage::Listing { kind } }, Step { notices, action: Action::Run { command: listing_command(kind) } })
    }

    fn filter(kind: PackageManagerKind, installed: InstalledPackageSet) -> (begun: (Pipeline, Step))
        ensures
            begun.0.wf(),
            (begun.0@, begun.1@) == begin_filter(kind, installed.names_view()),
    {
        let count = Notice::InstalledCount { count: installed.len() };
        if installed.is_empty() {
            Self::finished(two_notices(count, Notice::AllExist))
        } else {
            let names = installed.names();
            assert(texts(names@)[0] == names@[0]@);
            let command = existence_check_command(kind, names[0].as_str());
            let missing: Vec<String> = Vec::new();
            assert(texts(missing@) =~= Seq::<Seq<char>>::empty());
            (
                Pipeline { stage: Stage::Filtering { kind, installed, next: 0, missing } },
                Step { notices: one_notice(count), action: Action::Run { command } },
            )
        }
    }

    fn removal(kind: PackageManagerKind, missing: Vec<String>) -> (begun: (Pipeline, Step))
        ensures
            begun.0.wf(),
            (begun.0@, begun.1@) == begin_removal(kind, texts(missing@)),
    {
        if missing.len() == 0 {
            Self::finished(one_notice(Notice::AllExist))
        } else {
            let command = removal_command(kind, missing[0].as_str());
            let notices = two_notices(Notice::MissingFound { names: missing.clone() }, Notice::RemovalStarts);
            assert(texts(missing@)[0] == missing@[0]@);
            (
                Pipeline { stage: Stage::Removing { kind, targets: missing, next: 0 } },
                Step { notices, action: Action::Run { command } },
            )
        }
    }

    /// Begins a run: the title is printed and the first candidate is probed.
    pub fn start() -> (begun: (Pipeline, Step))
        ensures
            begun.0.wf(),
            begun.0@ == (StageView::Detecting { next: 0 }),
            begun.1@ == (StepView {
                notices: seq![NoticeView::Banner],
                action: ActionView::Run { command: spec_version_check(candidate_order()[0]) },
            }),
    {
        let command = version_check_command(PackageManagerKind::candidate(0));
        (
            Pipeline { stage: Stage::Detecting { next: 0 } },
            Step { notices: one_notice(Notice::Banner), action: Action::Run { command } },
        )
    }

    /// Whether the run is over.
    pub fn is_done(&self) -> (done: bool)
        ensures
            self.wf(),
            done == (self@ is Done),
    {
        proof {
            use_type_invariant(self);
        }
        match self.stage {
            Stage::Done => true,
            _ => false,
        }
    }

    /// Takes in the result of the command that was handed out last, and hands
    /// out the next step. A run that is over stays over.
    pub fn advance(self, result: &RunResult) -> (next: (Pipeline, Step))
        ensures
            self.wf(),
            next.0.wf(),
            (next.0@, next.1@) == spec_advance(self@, *result),
    {
        proof {
            use_type_invariant(&self);
        }
        match self.stage {
            Stage::Detecting { next } => {
                if result.succeeded() {
                    Self::listing(PackageManagerKind::candidate(next))
                } else if next + 1 < CANDIDATE_COUNT {
                    let command = version_check_command(PackageManagerKind::candidate(next + 1));
                    (
                        Pipeline { stage: Stage::Detecting { next: next + 1 } },
                        Step { notices: no_notice(), action: Action::Run { command } },
                    )
                } else {
                    Self::listing(PackageManagerKind::Apt)
                }
            },
            Stage::Listing { kind } => match get_installed_packages(result) {
                Ok(installed) => Self::filter(kind, installed),
                Err(error) => Self::finished(one_notice(Notice::ListingFailed { error })),
            },
            Stage::Filtering { kind, installed, next, missing } => {
                let mut missing = missing;
                let ghost before = texts(missing@);
                let names = installed.names();
                assert(texts(names@).len() == names@.len());
                assert(texts(names@)[next as int] == names@[next as int]@);
                if !package_exists_in_repos(result) {
                    missing.push(names[next].clone());
                    assert(texts(missing@) =~= before.push(installed.names_view()[next as int]));
                }
                assert(next < names.len());
                if next + 1 < names.len() {
                    assert(texts(names@)[next + 1] == names@[next + 1]@);
                    let command = existence_check_command(kind, names[next + 1].as_str());
                    (
                        Pipeline { stage: Stage::Filtering { kind, installed, next: next + 1, missing } },
                        Step { notices: no_notice(), action: Action::Run { command } },
                    )
                } else {
                    Self::removal(kind, missing)
                }
            },
            Stage::Removing { kind, targets, next } => {
                assert(texts(targets@).len() == targets@.len());
                assert(texts(targets@)[next as int] == targets@[next as int]@);
                let removal = Notice::Removal { package: targets[next].clone(), outcome: uninstall_package(result) };
                assert(next < targets.len());
                if next + 1 < targets.len() {
                    let command = removal_command(kind, targets[next + 1].as_str());
                    assert(texts(targets@)[next + 1] == targets@[next + 1]@);
                    (
                        Pipeline { stage: Stage::Removing { kind, targets, next: next + 1 } },
                        Step { notices: one_notice(removal), action: Action::Run { command } },
                    )
                } else {
                    Self::finished(two_notices(removal, Notice::Completed))
                }
            },
            Stage::Done => Self::finished(no_notice()),
        }
    }
}

} // verus!
